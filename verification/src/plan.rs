//! What is to be played where: the plan that the command line and the configuration
//! ask for, and the playback that comes of it once every source has a path.
use vstd::prelude::*;

use crate::config;
use crate::config::{Alias, AliasText, Config, Display, DisplayText, Platform};
use crate::text;

verus! {

/// How `yt-dlp` is to be called.
#[derive(Debug, Clone)]
pub struct YtDlpOpts {
    pub format: Option<String>,
    pub cookies_from_browser: Option<String>,
    pub extra_args: Vec<String>,
}

impl Default for YtDlpOpts {
    fn default() -> (r: YtDlpOpts)
        ensures
            r.format is None,
            r.cookies_from_browser is None,
            r.extra_args@.len() == 0,
    {
        YtDlpOpts { format: None, cookies_from_browser: None, extra_args: Vec::new() }
    }
}

/// Where a video comes from.
#[derive(Debug, Clone)]
pub enum Source {
    Path(String),
    Random,
}

/// A display and the source of its video.
#[derive(Debug, Clone)]
pub struct DisplayAssignment {
    /// Native display ID for the current OS (alias-resolved).
    pub native_id: String,
    pub source: Source,
}

/// One video for all displays, or one for each of some.
#[derive(Debug, Clone)]
pub enum Plan {
    Mirror(Source),
    PerDisplay(Vec<DisplayAssignment>),
}

/// A display and the path of its video.
#[derive(Debug, Clone)]
pub struct ResolvedAssignment {
    pub native_id: String,
    pub path: String,
}

/// A plan whose sources are paths.
#[derive(Debug, Clone)]
pub enum Playback {
    Mirror(String),
    PerDisplay(Vec<ResolvedAssignment>),
}

/// What the command line asks for display by display.
#[derive(Debug)]
pub struct CliPerDisplay {
    /// Pairs of (id, path) from repeated `--display ID PATH`.
    pub pinned: Vec<(String, String)>,
    /// IDs from repeated `--display-rand ID`.
    pub random: Vec<String>,
}

impl Default for CliPerDisplay {
    fn default() -> (r: CliPerDisplay)
        ensures
            r.pinned@.len() == 0,
            r.random@.len() == 0,
    {
        CliPerDisplay { pinned: Vec::new(), random: Vec::new() }
    }
}

/// Why there is no plan.
#[derive(Debug)]
pub enum PlanError {
    /// Nothing names a video.
    NoSource,
    /// The alias has no native id on this system.
    AliasWithoutId { id: String, platform: Platform },
    /// The configuration gives the display both a path and `random`.
    TwoSources { id: String },
    /// The configuration gives the display neither a path nor `random`.
    MissingSource { id: String },
    /// Two entries, by position, mean the same display.
    AssignedTwice { native_id: String, first: usize, second: usize },
}

/// A [`Source`] as plain text.
pub enum SourceText {
    Path(Seq<char>),
    Random,
}

impl View for Source {
    type V = SourceText;

    open spec fn view(&self) -> SourceText {
        match self {
            Source::Path(p) => SourceText::Path(p@),
            Source::Random => SourceText::Random,
        }
    }
}

/// A [`DisplayAssignment`] as plain text.
pub struct AssignmentText {
    pub native_id: Seq<char>,
    pub source: SourceText,
}

impl View for DisplayAssignment {
    type V = AssignmentText;

    open spec fn view(&self) -> AssignmentText {
        AssignmentText { native_id: self.native_id@, source: self.source@ }
    }
}

/// The assignments as plain text, in order.
pub open spec fn assignment_texts(entries: Seq<DisplayAssignment>) -> Seq<AssignmentText> {
    entries.map_values(|a: DisplayAssignment| a@)
}

/// A [`Plan`] as plain text.
pub enum PlanText {
    Mirror(SourceText),
    PerDisplay(Seq<AssignmentText>),
}

impl View for Plan {
    type V = PlanText;

    open spec fn view(&self) -> PlanText {
        match self {
            Plan::Mirror(s) => PlanText::Mirror(s@),
            Plan::PerDisplay(v) => PlanText::PerDisplay(assignment_texts(v@)),
        }
    }
}

/// A [`PlanError`] as plain text.
pub enum PlanErrorText {
    NoSource,
    AliasWithoutId { id: Seq<char>, platform: Platform },
    TwoSources { id: Seq<char> },
    MissingSource { id: Seq<char> },
    AssignedTwice { native_id: Seq<char>, first: int, second: int },
}

impl View for PlanError {
    type V = PlanErrorText;

    open spec fn view(&self) -> PlanErrorText {
        match self {
            PlanError::NoSource => PlanErrorText::NoSource,
            PlanError::AliasWithoutId { id, platform } => PlanErrorText::AliasWithoutId {
                id: id@,
                platform: *platform,
            },
            PlanError::TwoSources { id } => PlanErrorText::TwoSources { id: id@ },
            PlanError::MissingSource { id } => PlanErrorText::MissingSource { id: id@ },
            PlanError::AssignedTwice { native_id, first, second } => PlanErrorText::AssignedTwice {
                native_id: native_id@,
                first: *first as int,
                second: *second as int,
            },
        }
    }
}

/// A result of planning as plain text.
pub open spec fn plan_result(r: Result<Plan, PlanError>) -> Result<PlanText, PlanErrorText> {
    match r {
        Ok(p) => Ok(p@),
        Err(e) => Err(e@),
    }
}

impl PlanErrorText {
    /// The message that tells the user what is wrong.
    pub open spec fn message(self) -> Seq<char> {
        match self {
            PlanErrorText::NoSource =>
                "no video source: pass a path, --rand, --display ID PATH, or configure [[display]] entries"@,
            PlanErrorText::AliasWithoutId { id, platform } => "alias `"@ + id + (match platform {
                Platform::Wayland => "` has no `wayland = \"...\"` entry"@,
                Platform::Macos => "` has no `macos = \"...\"` entry"@,
            }),
            PlanErrorText::TwoSources { id } => "[[display]] `"@ + id
                + "`: set exactly one of `path` or `random`"@,
            PlanErrorText::MissingSource { id } => "[[display]] `"@ + id
                + "`: needs either `path` or `random = true`"@,
            PlanErrorText::AssignedTwice { native_id, first, second } => "display `"@ + native_id
                + "` assigned twice (entries "@ + text::decimal(first as nat) + " and "@
                + text::decimal(second as nat) + ")"@,
        }
    }
}

impl PlanError {
    /// The message that tells the user what is wrong.
    pub fn message(&self) -> (r: String)
        ensures
            r@ == self@.message(),
    {
        match self {
            PlanError::NoSource =>
                "no video source: pass a path, --rand, --display ID PATH, or configure [[display]] entries".to_owned(),
            PlanError::AliasWithoutId { id, platform } => text::join3(
                "alias `",
                id.as_str(),
                match platform {
                    Platform::Wayland => "` has no `wayland = \"...\"` entry",
                    Platform::Macos => "` has no `macos = \"...\"` entry",
                },
            ),
            PlanError::TwoSources { id } => text::join3(
                "[[display]] `",
                id.as_str(),
                "`: set exactly one of `path` or `random`",
            ),
            PlanError::MissingSource { id } => text::join3(
                "[[display]] `",
                id.as_str(),
                "`: needs either `path` or `random = true`",
            ),
            PlanError::AssignedTwice { native_id, first, second } => {
                let mut r = text::join3(
                    "display `",
                    native_id.as_str(),
                    "` assigned twice (entries ",
                );
                r.append(text::decimal_text(*first as u64).as_str());
                r.append(" and ");
                r.append(text::decimal_text(*second as u64).as_str());
                r.append(")");
                r
            },
        }
    }
}

impl CliPerDisplay {
    /// Whether the command line asks for no display in particular.
    pub fn is_empty(&self) -> (r: bool)
        ensures
            r == (self.pinned@.len() == 0 && self.random@.len() == 0),
    {
        self.pinned.len() == 0 && self.random.len() == 0
    }
}

/// The position of the first alias with this name.
pub open spec fn alias_position(aliases: Seq<AliasText>, name: Seq<char>) -> Option<int>
    decreases aliases.len(),
{
    if aliases.len() == 0 {
        None
    } else {
        match alias_position(aliases.drop_last(), name) {
            Some(i) => Some(i),
            None => if aliases.last().name == name {
                Some(aliases.len() - 1)
            } else {
                None
            },
        }
    }
}

/// The native id that `id` means: that of the first alias with this name, or `id` itself
/// when there is no such alias.
pub open spec fn resolved_id(
    id: Seq<char>,
    aliases: Seq<AliasText>,
    platform: Platform,
) -> Result<Seq<char>, PlanErrorText> {
    match alias_position(aliases, id) {
        None => Ok(id),
        Some(i) => {
            let native = match platform {
                Platform::Wayland => aliases[i].wayland,
                Platform::Macos => aliases[i].macos,
            };
            match native {
                Some(n) => Ok(n),
                None => Err(PlanErrorText::AliasWithoutId { id, platform }),
            }
        },
    }
}

/// The native id that `id` means on this platform.
pub fn resolve_id(id: &str, aliases: &Vec<Alias>, platform: Platform) -> (r: Result<
    String,
    PlanError,
>)
    ensures
        (match r {
            Ok(n) => Ok(n@),
            Err(e) => Err(e@),
        }) == resolved_id(id@, config::alias_texts(aliases@), platform),
{
    let ghost texts = config::alias_texts(aliases@);
    let mut i: usize = 0;
    assert(texts.take(texts.len() as int) =~= texts);
    while i < aliases.len()
        invariant
            texts == config::alias_texts(aliases@),
            i <= aliases@.len(),
            alias_position(texts.take(i as int), id@) is None,
        decreases aliases@.len() - i,
    {
        assert(texts.take(i + 1).drop_last() =~= texts.take(i as int));
        if text::same_text(aliases[i].name.as_str(), id) {
            proof {
                lemma_alias_position_prefix(texts, i + 1, id@);
            }
            let native = match platform {
                Platform::Wayland => &aliases[i].wayland,
                Platform::Macos => &aliases[i].macos,
            };
            return match native {
                Some(n) => Ok(n.clone()),
                None => Err(PlanError::AliasWithoutId { id: id.to_owned(), platform }),
            };
        }
        i = i + 1;
    }
    assert(texts.take(i as int) =~= texts);
    Ok(id.to_owned())
}

/// An alias found among the first few is the one found among all.
proof fn lemma_alias_position_prefix(aliases: Seq<AliasText>, n: int, name: Seq<char>)
    requires
        0 <= n <= aliases.len(),
        alias_position(aliases.take(n), name) is Some,
    ensures
        alias_position(aliases, name) == alias_position(aliases.take(n), name),
    decreases aliases.len() - n,
{
    if n == aliases.len() {
        assert(aliases.take(n) =~= aliases);
    } else {
        assert(aliases.take(n + 1).drop_last() =~= aliases.take(n));
        lemma_alias_position_prefix(aliases, n + 1, name);
    }
}

/// The first two entries that mean the same display.
pub open spec fn first_repeat(ids: Seq<Seq<char>>) -> Option<(int, int)>
    decreases ids.len(),
{
    if ids.len() == 0 {
        None
    } else {
        match first_repeat(ids.drop_last()) {
            Some(p) => Some(p),
            None => if ids.drop_last().contains(ids.last()) {
                Some((ids.drop_last().index_of(ids.last()), ids.len() - 1))
            } else {
                None
            },
        }
    }
}

/// The displays that the entries mean, in order.
pub open spec fn native_ids(entries: Seq<AssignmentText>) -> Seq<Seq<char>> {
    entries.map_values(|a: AssignmentText| a.native_id)
}

/// The entries when they mean different displays, and otherwise the first repetition.
pub open spec fn deduped(entries: Seq<AssignmentText>) -> Result<
    Seq<AssignmentText>,
    PlanErrorText,
> {
    match first_repeat(native_ids(entries)) {
        None => Ok(entries),
        Some((first, second)) => Err(
            PlanErrorText::AssignedTwice {
                native_id: entries[second].native_id,
                first,
                second,
            },
        ),
    }
}

/// A repetition among the first few is the one found among all.
proof fn lemma_first_repeat_prefix(ids: Seq<Seq<char>>, n: int)
    requires
        0 <= n <= ids.len(),
        first_repeat(ids.take(n)) is Some,
    ensures
        first_repeat(ids) == first_repeat(ids.take(n)),
    decreases ids.len() - n,
{
    if n == ids.len() {
        assert(ids.take(n) =~= ids);
    } else {
        assert(ids.take(n + 1).drop_last() =~= ids.take(n));
        lemma_first_repeat_prefix(ids, n + 1);
    }
}

/// Without a repetition all ids differ; a repetition is of two equal ids.
pub proof fn first_repeat_law(ids: Seq<Seq<char>>)
    ensures
        first_repeat(ids) is None <==> ids.no_duplicates(),
        first_repeat(ids) matches Some((a, b)) ==> 0 <= a < b < ids.len() && ids[a] == ids[b]
            && ids.take(b).no_duplicates(),
    decreases ids.len(),
{
    if ids.len() > 0 {
        let front = ids.drop_last();
        first_repeat_law(front);
        match first_repeat(front) {
            Some((a, b)) => {
                assert(ids.take(b) =~= front.take(b));
                assert(front[a] == ids[a] && front[b] == ids[b]);
            },
            None => {
                if front.contains(ids.last()) {
                    let a = front.index_of(ids.last());
                    assert(front[a] == ids.last());
                    assert(ids[a] == ids[ids.len() - 1]);
                    assert(ids.take(ids.len() - 1) =~= front);
                } else {
                    assert forall|i: int, j: int|
                        0 <= i < ids.len() && 0 <= j < ids.len() && i != j implies ids[i]
                        != ids[j] by {
                        if i < front.len() && j < front.len() {
                            assert(front[i] == ids[i] && front[j] == ids[j]);
                        } else if i < front.len() {
                            assert(front[i] == ids[i]);
                        } else {
                            assert(front[j] == ids[j]);
                        }
                    }
                }
            },
        }
    }
}

/// Refuses entries of which two mean the same display.
pub fn dedupe(entries: &Vec<DisplayAssignment>) -> (r: Result<(), PlanError>)
    ensures
        (match r {
            Ok(()) => Ok(assignment_texts(entries@)),
            Err(e) => Err(e@),
        }) == deduped(assignment_texts(entries@)),
{
    let ghost ids = native_ids(assignment_texts(entries@));
    let mut i: usize = 0;
    while i < entries.len()
        invariant
            ids == native_ids(assignment_texts(entries@)),
            i <= entries@.len(),
            first_repeat(ids.take(i as int)) is None,
        decreases entries@.len() - i,
    {
        let ghost front = ids.take(i as int);
        assert(ids.take(i + 1).drop_last() =~= front);
        let mut j: usize = 0;
        while j < i
            invariant
                ids == native_ids(assignment_texts(entries@)),
                front == ids.take(i as int),
                ids.take(i + 1).drop_last() == front,
                first_repeat(front) is None,
                j <= i < entries@.len(),
                forall|k: int| 0 <= k < j ==> front[k] != ids[i as int],
            decreases i - j,
        {
            if text::same_text(entries[j].native_id.as_str(), entries[i].native_id.as_str()) {
                proof {
                    assert(front[j as int] == ids[i as int]);
                    assert(front.contains(ids[i as int]));
                    first_repeat_law(front);
                    assert(front.index_of(ids[i as int]) == j);
                    lemma_first_repeat_prefix(ids, i + 1);
                }
                return Err(
                    PlanError::AssignedTwice {
                        native_id: entries[i].native_id.clone(),
                        first: j,
                        second: i,
                    },
                );
            }
            j = j + 1;
        }
        assert(!front.contains(ids[i as int]));
        i = i + 1;
    }
    assert(ids.take(i as int) =~= ids);
    Ok(())
}

/// One display asked for: the id as the user wrote it, and the source or what is wrong
/// with it.
pub struct Request {
    pub id: Seq<char>,
    pub source: Result<SourceText, PlanErrorText>,
}

/// The assignment that a request leads to. What is wrong with its source comes before
/// what is wrong with its id.
pub open spec fn assigned(
    request: Request,
    aliases: Seq<AliasText>,
    platform: Platform,
) -> Result<AssignmentText, PlanErrorText> {
    match request.source {
        Err(e) => Err(e),
        Ok(source) => match resolved_id(request.id, aliases, platform) {
            Err(e) => Err(e),
            Ok(native_id) => Ok(AssignmentText { native_id, source }),
        },
    }
}

/// The assignments that the requests lead to, in order, or the first that fails.
pub open spec fn all_assigned(
    requests: Seq<Request>,
    aliases: Seq<AliasText>,
    platform: Platform,
) -> Result<Seq<AssignmentText>, PlanErrorText>
    decreases requests.len(),
{
    if requests.len() == 0 {
        Ok(Seq::empty())
    } else {
        match all_assigned(requests.drop_last(), aliases, platform) {
            Err(e) => Err(e),
            Ok(front) => match assigned(requests.last(), aliases, platform) {
                Err(e) => Err(e),
                Ok(a) => Ok(front.push(a)),
            },
        }
    }
}

/// A failure among the first few requests is the failure of all.
proof fn lemma_all_assigned_prefix(
    requests: Seq<Request>,
    n: int,
    aliases: Seq<AliasText>,
    platform: Platform,
)
    requires
        0 <= n <= requests.len(),
        all_assigned(requests.take(n), aliases, platform) is Err,
    ensures
        all_assigned(requests, aliases, platform) == all_assigned(
            requests.take(n),
            aliases,
            platform,
        ),
    decreases requests.len() - n,
{
    if n == requests.len() {
        assert(requests.take(n) =~= requests);
    } else {
        assert(requests.take(n + 1).drop_last() =~= requests.take(n));
        lemma_all_assigned_prefix(requests, n + 1, aliases, platform);
    }
}

/// The plan that the requests lead to.
pub open spec fn per_display(
    requests: Seq<Request>,
    aliases: Seq<AliasText>,
    platform: Platform,
) -> Result<PlanText, PlanErrorText> {
    match all_assigned(requests, aliases, platform) {
        Err(e) => Err(e),
        Ok(entries) => match deduped(entries) {
            Err(e) => Err(e),
            Ok(entries) => Ok(PlanText::PerDisplay(entries)),
        },
    }
}

/// What the command line asks for: the pinned displays, then the random ones.
pub open spec fn cli_requests(
    pinned: Seq<(String, String)>,
    random: Seq<String>,
) -> Seq<Request> {
    pinned.map_values(
        |p: (String, String)| Request { id: p.0@, source: Ok(SourceText::Path(p.1@)) },
    ) + random.map_values(|id: String| Request { id: id@, source: Ok(SourceText::Random) })
}

/// What one `[[display]]` entry asks for.
pub open spec fn display_request(d: DisplayText) -> Request {
    Request {
        id: d.id,
        source: match (d.path, d.random) {
            (Some(p), false) => Ok(SourceText::Path(p)),
            (None, true) => Ok(SourceText::Random),
            (Some(_), true) => Err(PlanErrorText::TwoSources { id: d.id }),
            (None, false) => Err(PlanErrorText::MissingSource { id: d.id }),
        },
    }
}

/// What the configuration asks for.
pub open spec fn config_requests(displays: Seq<DisplayText>) -> Seq<Request> {
    displays.map_values(|d: DisplayText| display_request(d))
}

/// Adds the assignment of one display to `entries`.
fn assign(
    id: &str,
    source: Source,
    aliases: &Vec<Alias>,
    platform: Platform,
    entries: &mut Vec<DisplayAssignment>,
) -> (r: Result<(), PlanError>)
    ensures
        ({
            let request = Request { id: id@, source: Ok(source@) };
            match assigned(request, config::alias_texts(aliases@), platform) {
                Ok(a) => r is Ok && assignment_texts(final(entries)@) == assignment_texts(
                    old(entries)@,
                ).push(a),
                Err(e) => r is Err && r->Err_0@ == e,
            }
        }),
{
    match resolve_id(id, aliases, platform) {
        Err(e) => Err(e),
        Ok(native_id) => {
            entries.push(DisplayAssignment { native_id, source });
            assert(assignment_texts(entries@) =~= assignment_texts(old(entries)@).push(
                entries@.last()@,
            ));
            Ok(())
        },
    }
}

/// The plan for the displays that the command line names.
pub fn per_display_from_cli(cli: CliPerDisplay, aliases: &Vec<Alias>, platform: Platform) -> (r:
    Result<Plan, PlanError>)
    ensures
        plan_result(r) == per_display(
            cli_requests(cli.pinned@, cli.random@),
            config::alias_texts(aliases@),
            platform,
        ),
{
    let ghost texts = config::alias_texts(aliases@);
    let ghost requests = cli_requests(cli.pinned@, cli.random@);
    let mut entries: Vec<DisplayAssignment> = Vec::new();
    assert(assignment_texts(entries@) =~= Seq::<AssignmentText>::empty());
    assert(requests.take(0) =~= Seq::<Request>::empty());
    let mut i: usize = 0;
    while i < cli.pinned.len()
        invariant
            texts == config::alias_texts(aliases@),
            requests == cli_requests(cli.pinned@, cli.random@),
            i <= cli.pinned@.len(),
            all_assigned(requests.take(i as int), texts, platform) == Ok::<
                Seq<AssignmentText>,
                PlanErrorText,
            >(assignment_texts(entries@)),
        decreases cli.pinned@.len() - i,
    {
        assert(requests.take(i + 1).drop_last() =~= requests.take(i as int));
        let pair = &cli.pinned[i];
        let added = assign(
            pair.0.as_str(),
            Source::Path(pair.1.clone()),
            aliases,
            platform,
            &mut entries,
        );
        match added {
            Err(e) => {
                proof {
                    lemma_all_assigned_prefix(requests, i + 1, texts, platform);
                }
                return Err(e);
            },
            Ok(()) => {},
        }
        i = i + 1;
    }
    let n: usize = cli.pinned.len();
    let mut k: usize = 0;
    while k < cli.random.len()
        invariant
            texts == config::alias_texts(aliases@),
            requests == cli_requests(cli.pinned@, cli.random@),
            n == cli.pinned@.len(),
            k <= cli.random@.len(),
            all_assigned(requests.take(n + k), texts, platform) == Ok::<
                Seq<AssignmentText>,
                PlanErrorText,
            >(assignment_texts(entries@)),
        decreases cli.random@.len() - k,
    {
        assert(requests.take(n + k + 1).drop_last() =~= requests.take(n + k));
        let added = assign(cli.random[k].as_str(), Source::Random, aliases, platform, &mut entries);
        match added {
            Err(e) => {
                proof {
                    lemma_all_assigned_prefix(requests, n + k + 1, texts, platform);
                }
                return Err(e);
            },
            Ok(()) => {},
        }
        k = k + 1;
    }
    assert(requests.take(n + k) =~= requests);
    match dedupe(&entries) {
        Err(e) => Err(e),
        Ok(()) => Ok(Plan::PerDisplay(entries)),
    }
}

/// The plan for the displays that the configuration names.
pub fn per_display_from_config(displays: &Vec<Display>, aliases: &Vec<Alias>, platform: Platform)
    -> (r: Result<Plan, PlanError>)
    ensures
        plan_result(r) == per_display(
            config_requests(config::display_texts(displays@)),
            config::alias_texts(aliases@),
            platform,
        ),
{
    let ghost texts = config::alias_texts(aliases@);
    let ghost requests = config_requests(config::display_texts(displays@));
    let mut entries: Vec<DisplayAssignment> = Vec::new();
    assert(assignment_texts(entries@) =~= Seq::<AssignmentText>::empty());
    assert(requests.take(0) =~= Seq::<Request>::empty());
    let mut i: usize = 0;
    while i < displays.len()
        invariant
            texts == config::alias_texts(aliases@),
            requests == config_requests(config::display_texts(displays@)),
            i <= displays@.len(),
            all_assigned(requests.take(i as int), texts, platform) == Ok::<
                Seq<AssignmentText>,
                PlanErrorText,
            >(assignment_texts(entries@)),
        decreases displays@.len() - i,
    {
        assert(requests.take(i + 1).drop_last() =~= requests.take(i as int));
        let d = &displays[i];
        let ghost request = requests[i as int];
        assert(request == display_request(d@));
        let source = match &d.path {
            Some(p) => {
                if d.random {
                    proof {
                        lemma_all_assigned_prefix(requests, i + 1, texts, platform);
                    }
                    return Err(PlanError::TwoSources { id: d.id.clone() });
                }
                Source::Path(p.clone())
            },
            None => {
                if !d.random {
                    proof {
                        lemma_all_assigned_prefix(requests, i + 1, texts, platform);
                    }
                    return Err(PlanError::MissingSource { id: d.id.clone() });
                }
                Source::Random
            },
        };
        assert(request == Request { id: d.id@, source: Ok(source@) });
        let added = assign(d.id.as_str(), source, aliases, platform, &mut entries);
        match added {
            Err(e) => {
                proof {
                    lemma_all_assigned_prefix(requests, i + 1, texts, platform);
                }
                return Err(e);
            },
            Ok(()) => {},
        }
        i = i + 1;
    }
    assert(requests.take(i as int) =~= requests);
    match dedupe(&entries) {
        Err(e) => Err(e),
        Ok(()) => Ok(Plan::PerDisplay(entries)),
    }
}

/// The plan that the command line and the configuration lead to.
pub open spec fn planned(
    positional_path: Option<Seq<char>>,
    cli_rand: bool,
    cli: Seq<Request>,
    displays: Seq<DisplayText>,
    aliases: Seq<AliasText>,
    platform: Platform,
) -> Result<PlanText, PlanErrorText> {
    if cli.len() > 0 {
        per_display(cli, aliases, platform)
    } else if positional_path is Some {
        Ok(PlanText::Mirror(SourceText::Path(positional_path->0)))
    } else if cli_rand {
        Ok(PlanText::Mirror(SourceText::Random))
    } else if displays.len() > 0 {
        per_display(config_requests(displays), aliases, platform)
    } else {
        Err(PlanErrorText::NoSource)
    }
}

/// Build a Plan from CLI args and config. Precedence: CLI per-display flags >
/// CLI positional/--rand > config `[[display]]`. If none of those produce a
/// source, returns Err.
pub fn build(
    positional_path: Option<String>,
    cli_rand: bool,
    cli_per_display: CliPerDisplay,
    config: &Config,
    platform: Platform,
) -> (r: Result<Plan, PlanError>)
    ensures
        plan_result(r) == planned(
            config::text_view(positional_path),
            cli_rand,
            cli_requests(cli_per_display.pinned@, cli_per_display.random@),
            config::display_texts(config.display@),
            config::alias_texts(config.alias@),
            platform,
        ),
{
    if !cli_per_display.is_empty() {
        return per_display_from_cli(cli_per_display, &config.alias, platform);
    }
    match positional_path {
        Some(path) => {
            return Ok(Plan::Mirror(Source::Path(path)));
        },
        None => {},
    }
    if cli_rand {
        return Ok(Plan::Mirror(Source::Random));
    }
    if config.display.len() > 0 {
        return per_display_from_config(&config.display, &config.alias, platform);
    }
    Err(PlanError::NoSource)
}

/// A plan for single displays names each display once, and names one for every request,
/// in the order of the requests.
pub proof fn per_display_law(requests: Seq<Request>, aliases: Seq<AliasText>, platform: Platform)
    ensures
        per_display(requests, aliases, platform) matches Ok(plan) ==> {
            &&& plan is PerDisplay
            &&& plan->PerDisplay_0.len() == requests.len()
            &&& native_ids(plan->PerDisplay_0).no_duplicates()
            &&& forall|i: int|
                0 <= i < requests.len() ==> #[trigger] assigned(requests[i], aliases, platform)
                    == Ok::<AssignmentText, PlanErrorText>(plan->PerDisplay_0[i])
        },
{
    if all_assigned(requests, aliases, platform) is Ok {
        let entries = all_assigned(requests, aliases, platform)->Ok_0;
        lemma_all_assigned_each(requests, aliases, platform);
        first_repeat_law(native_ids(entries));
    }
}

/// Requests that all lead to an assignment lead to these assignments.
proof fn lemma_all_assigned_each(
    requests: Seq<Request>,
    aliases: Seq<AliasText>,
    platform: Platform,
)
    ensures
        all_assigned(requests, aliases, platform) matches Ok(entries) ==> entries.len()
            == requests.len() && forall|i: int|
            0 <= i < requests.len() ==> #[trigger] assigned(requests[i], aliases, platform) == Ok::<
                AssignmentText,
                PlanErrorText,
            >(entries[i]),
    decreases requests.len(),
{
    if requests.len() > 0 && all_assigned(requests, aliases, platform) is Ok {
        let entries = all_assigned(requests, aliases, platform)->Ok_0;
        let front = requests.drop_last();
        lemma_all_assigned_each(front, aliases, platform);
        assert forall|i: int| 0 <= i < requests.len() implies #[trigger] assigned(
            requests[i],
            aliases,
            platform,
        ) == Ok::<AssignmentText, PlanErrorText>(entries[i]) by {
            if i < front.len() {
                assert(front[i] == requests[i]);
                assert(assigned(front[i], aliases, platform) is Ok);
            }
        }
    }
}

/// Whatever the command line asks for comes before the configuration, and the displays it
/// names come before a path or `--rand` for all of them.
pub proof fn precedence_law(
    positional_path: Option<Seq<char>>,
    cli_rand: bool,
    pinned: Seq<(String, String)>,
    random: Seq<String>,
    displays: Seq<DisplayText>,
    aliases: Seq<AliasText>,
    platform: Platform,
    other_displays: Seq<DisplayText>,
    other_path: Option<Seq<char>>,
    other_rand: bool,
)
    ensures
        cli_requests(pinned, random).len() > 0 ==> planned(
            positional_path,
            cli_rand,
            cli_requests(pinned, random),
            displays,
            aliases,
            platform,
        ) == planned(
            other_path,
            other_rand,
            cli_requests(pinned, random),
            other_displays,
            aliases,
            platform,
        ),
        positional_path is Some || cli_rand ==> planned(
            positional_path,
            cli_rand,
            cli_requests(pinned, random),
            displays,
            aliases,
            platform,
        ) == planned(
            positional_path,
            cli_rand,
            cli_requests(pinned, random),
            other_displays,
            aliases,
            platform,
        ),
        planned(
            positional_path,
            cli_rand,
            cli_requests(pinned, random),
            displays,
            aliases,
            platform,
        ) == Err::<PlanText, PlanErrorText>(PlanErrorText::NoSource) <==> cli_requests(
            pinned,
            random,
        ).len() == 0 && positional_path is None && !cli_rand && displays.len() == 0,
{
    let cli = cli_requests(pinned, random);
    assert forall|i: int| 0 <= i < cli.len() implies (#[trigger] cli[i]).source != Err::<
        SourceText,
        PlanErrorText,
    >(PlanErrorText::NoSource) by {}
    lemma_errors_of_requests(cli, aliases, platform);
    lemma_errors_of_requests(config_requests(displays), aliases, platform);
    let asked = config_requests(displays);
    assert forall|i: int| 0 <= i < asked.len() implies (#[trigger] asked[i]).source != Err::<
        SourceText,
        PlanErrorText,
    >(PlanErrorText::NoSource) by {}
}

/// "No source" is not what single requests fail with.
proof fn lemma_errors_of_requests(
    requests: Seq<Request>,
    aliases: Seq<AliasText>,
    platform: Platform,
)
    ensures
        (forall|i: int|
            0 <= i < requests.len() ==> (#[trigger] requests[i]).source != Err::<
                SourceText,
                PlanErrorText,
            >(PlanErrorText::NoSource)) ==> all_assigned(requests, aliases, platform) != Err::<
            Seq<AssignmentText>,
            PlanErrorText,
        >(PlanErrorText::NoSource),
    decreases requests.len(),
{
    if requests.len() > 0 {
        let front = requests.drop_last();
        lemma_errors_of_requests(front, aliases, platform);
        if forall|i: int|
            0 <= i < requests.len() ==> (#[trigger] requests[i]).source != Err::<
                SourceText,
                PlanErrorText,
            >(PlanErrorText::NoSource) {
            assert forall|i: int| 0 <= i < front.len() implies (#[trigger] front[i]).source
                != Err::<SourceText, PlanErrorText>(PlanErrorText::NoSource) by {
                assert(front[i] == requests[i]);
            }
            assert(requests.last() == requests[requests.len() - 1]);
        }
    }
}

/// A [`ResolvedAssignment`] as plain text.
pub struct ResolvedText {
    pub native_id: Seq<char>,
    pub path: Seq<char>,
}

impl View for ResolvedAssignment {
    type V = ResolvedText;

    open spec fn view(&self) -> ResolvedText {
        ResolvedText { native_id: self.native_id@, path: self.path@ }
    }
}

/// The resolved assignments as plain text, in order.
pub open spec fn resolved_texts(entries: Seq<ResolvedAssignment>) -> Seq<ResolvedText> {
    entries.map_values(|a: ResolvedAssignment| a@)
}

/// A [`Playback`] as plain text.
pub enum PlaybackText {
    Mirror(Seq<char>),
    PerDisplay(Seq<ResolvedText>),
}

impl View for Playback {
    type V = PlaybackText;

    open spec fn view(&self) -> PlaybackText {
        match self {
            Playback::Mirror(p) => PlaybackText::Mirror(p@),
            Playback::PerDisplay(v) => PlaybackText::PerDisplay(resolved_texts(v@)),
        }
    }
}

/// Why a source has no path.
#[derive(Debug)]
pub enum ResolveError {
    /// No search path holds a wallpaper.
    NoWallpapers,
    /// `yt-dlp` could not be started.
    YtDlpNotRun,
    /// `yt-dlp` failed, with this on its standard error.
    YtDlpFailed { stderr: String },
    /// What `yt-dlp` printed is not text.
    YtDlpNotUtf8,
    /// `yt-dlp` printed nothing.
    YtDlpNoOutput,
}

/// A [`ResolveError`] as plain text.
pub enum ResolveErrorText {
    NoWallpapers,
    YtDlpNotRun,
    YtDlpFailed { stderr: Seq<char> },
    YtDlpNotUtf8,
    YtDlpNoOutput,
}

impl View for ResolveError {
    type V = ResolveErrorText;

    open spec fn view(&self) -> ResolveErrorText {
        match self {
            ResolveError::NoWallpapers => ResolveErrorText::NoWallpapers,
            ResolveError::YtDlpNotRun => ResolveErrorText::YtDlpNotRun,
            ResolveError::YtDlpFailed { stderr } => ResolveErrorText::YtDlpFailed {
                stderr: stderr@,
            },
            ResolveError::YtDlpNotUtf8 => ResolveErrorText::YtDlpNotUtf8,
            ResolveError::YtDlpNoOutput => ResolveErrorText::YtDlpNoOutput,
        }
    }
}

impl ResolveErrorText {
    /// The message that tells the user what is wrong.
    pub open spec fn message(self) -> Seq<char> {
        match self {
            ResolveErrorText::NoWallpapers => "no wallpapers found in configured search paths"@,
            ResolveErrorText::YtDlpNotRun => "failed to run yt-dlp (is it installed?)"@,
            ResolveErrorText::YtDlpFailed { stderr } => "yt-dlp failed:\n"@ + stderr,
            ResolveErrorText::YtDlpNotUtf8 => "yt-dlp output is not valid UTF-8"@,
            ResolveErrorText::YtDlpNoOutput => "yt-dlp produced no output"@,
        }
    }
}

impl ResolveError {
    /// The message that tells the user what is wrong.
    pub fn message(&self) -> (r: String)
        ensures
            r@ == self@.message(),
    {
        match self {
            ResolveError::NoWallpapers =>
                "no wallpapers found in configured search paths".to_owned(),
            ResolveError::YtDlpNotRun => "failed to run yt-dlp (is it installed?)".to_owned(),
            ResolveError::YtDlpFailed { stderr } => text::join2("yt-dlp failed:\n", stderr.as_str()),
            ResolveError::YtDlpNotUtf8 => "yt-dlp output is not valid UTF-8".to_owned(),
            ResolveError::YtDlpNoOutput => "yt-dlp produced no output".to_owned(),
        }
    }
}

/// How a source gets its path.
#[derive(Debug)]
pub enum SourceStep {
    /// The path is known.
    Ready(String),
    /// `yt-dlp` has to be asked for the stream behind this URL.
    AskYtDlp(String),
    /// A wallpaper has to be picked from the search paths.
    PickRandom,
}

/// A [`SourceStep`] as plain text.
pub enum SourceStepText {
    Ready(Seq<char>),
    AskYtDlp(Seq<char>),
    PickRandom,
}

impl View for SourceStep {
    type V = SourceStepText;

    open spec fn view(&self) -> SourceStepText {
        match self {
            SourceStep::Ready(p) => SourceStepText::Ready(p@),
            SourceStep::AskYtDlp(u) => SourceStepText::AskYtDlp(u@),
            SourceStep::PickRandom => SourceStepText::PickRandom,
        }
    }
}

/// How a source gets its path: a video page through `yt-dlp`, another URL without the
/// blanks around it, a file by its path with the home directory filled in.
pub open spec fn source_step(
    source: SourceText,
    youtube_url: Option<Seq<char>>,
    home: Option<Seq<char>>,
) -> SourceStepText {
    match source {
        SourceText::Path(p) => match youtube_url {
            Some(url) => SourceStepText::AskYtDlp(url),
            None => if config::is_url_text(p) {
                SourceStepText::Ready(text::trimmed(p))
            } else {
                SourceStepText::Ready(config::tilde_expanded(p, home))
            },
        },
        SourceText::Random => SourceStepText::PickRandom,
    }
}

/// How `source` gets its path. `youtube_url` is the video page that the path of the source
/// stands for, where it stands for one, and `home` the value of `$HOME`.
pub fn resolve_source(source: &Source, youtube_url: Option<String>, home: Option<&str>) -> (r:
    SourceStep)
    ensures
        r@ == source_step(
            source@,
            config::text_view(youtube_url),
            match home {
                Some(h) => Some(h@),
                None => None,
            },
        ),
{
    match source {
        Source::Path(p) => match youtube_url {
            Some(url) => SourceStep::AskYtDlp(url),
            None => if config::is_url(p.as_str()) {
                SourceStep::Ready(text::trim(p.as_str()))
            } else {
                SourceStep::Ready(config::expand_tilde(p.as_str(), home))
            },
        },
        Source::Random => SourceStep::PickRandom,
    }
}

/// The flag with its value, where there is one.
pub open spec fn flag_texts(flag: Seq<char>, value: Option<Seq<char>>) -> Seq<Seq<char>> {
    match value {
        Some(v) => seq![flag, v],
        None => Seq::empty(),
    }
}

/// The arguments for `yt-dlp` that ask for the stream behind `url`.
pub open spec fn ytdlp_arguments(url: Seq<char>, opts: YtDlpOpts) -> Seq<Seq<char>> {
    flag_texts("-f"@, config::text_view(opts.format)) + flag_texts(
        "--cookies-from-browser"@,
        config::text_view(opts.cookies_from_browser),
    ) + text::views(opts.extra_args@) + seq!["-g"@, url]
}

/// Appends one argument.
fn add_arg(args: &mut Vec<String>, arg: &str)
    ensures
        text::views(final(args)@) == text::views(old(args)@).push(arg@),
{
    args.push(arg.to_owned());
    assert(text::views(args@) =~= text::views(old(args)@).push(arg@));
}

/// The arguments for `yt-dlp`: the options, then a request for the stream behind `url`.
pub fn resolve_with_ytdlp(url: &str, opts: &YtDlpOpts) -> (args: Vec<String>)
    ensures
        text::views(args@) == ytdlp_arguments(url@, *opts),
{
    let mut args: Vec<String> = Vec::new();
    let ghost head = flag_texts("-f"@, config::text_view(opts.format));
    let ghost cookies = flag_texts(
        "--cookies-from-browser"@,
        config::text_view(opts.cookies_from_browser),
    );
    assert(text::views(args@) =~= Seq::<Seq<char>>::empty());
    match &opts.format {
        Some(format) => {
            add_arg(&mut args, "-f");
            add_arg(&mut args, format.as_str());
        },
        None => {},
    }
    assert(text::views(args@) =~= head);
    match &opts.cookies_from_browser {
        Some(browser) => {
            add_arg(&mut args, "--cookies-from-browser");
            add_arg(&mut args, browser.as_str());
        },
        None => {},
    }
    assert(text::views(args@) =~= head + cookies);
    let ghost extra = text::views(opts.extra_args@);
    let mut i: usize = 0;
    assert(head + cookies =~= head + cookies + extra.take(0));
    while i < opts.extra_args.len()
        invariant
            extra == text::views(opts.extra_args@),
            i <= opts.extra_args@.len(),
            text::views(args@) == head + cookies + extra.take(i as int),
        decreases opts.extra_args@.len() - i,
    {
        add_arg(&mut args, opts.extra_args[i].as_str());
        assert(extra.take(i + 1) =~= extra.take(i as int).push(extra[i as int]));
        assert(text::views(args@) =~= head + cookies + extra.take(i + 1));
        i = i + 1;
    }
    assert(extra.take(i as int) =~= extra);
    add_arg(&mut args, "-g");
    add_arg(&mut args, url);
    assert(text::views(args@) =~= ytdlp_arguments(url@, *opts));
    args
}

/// What came of asking `yt-dlp`: the first line that it printed, when it succeeded.
pub open spec fn ytdlp_outcome(success: bool, stdout: Seq<u8>, stderr: Seq<u8>) -> Result<
    Seq<char>,
    ResolveErrorText,
> {
    if !success {
        Err(ResolveErrorText::YtDlpFailed { stderr: text::lossy_text(stderr) })
    } else if !vstd::utf8::valid_utf8(stdout) {
        Err(ResolveErrorText::YtDlpNotUtf8)
    } else {
        match text::first_line_of(vstd::utf8::decode_utf8(stdout)) {
            Some(line) => Ok(line),
            None => Err(ResolveErrorText::YtDlpNoOutput),
        }
    }
}

/// A resolved path, or what went wrong, as plain text.
pub open spec fn answer_text(r: Result<String, ResolveError>) -> Result<
    Seq<char>,
    ResolveErrorText,
> {
    match r {
        Ok(p) => Ok(p@),
        Err(e) => Err(e@),
    }
}

/// The stream that `yt-dlp` names, given how it ended and what it printed.
pub fn ytdlp_answer(success: bool, stdout: &Vec<u8>, stderr: &Vec<u8>) -> (r: Result<
    String,
    ResolveError,
>)
    ensures
        answer_text(r) == ytdlp_outcome(success, stdout@, stderr@),
{
    if !success {
        return Err(ResolveError::YtDlpFailed { stderr: text::read_lossy(stderr.as_slice()) });
    }
    match core::str::from_utf8(stdout.as_slice()) {
        Err(_) => Err(ResolveError::YtDlpNotUtf8),
        Ok(printed) => match text::first_line(printed) {
            Some(line) => Ok(line),
            None => Err(ResolveError::YtDlpNoOutput),
        },
    }
}

/// The path of a picked wallpaper.
pub open spec fn pick_outcome(pick: Option<Seq<u8>>) -> Result<Seq<char>, ResolveErrorText> {
    match pick {
        Some(path) => Ok(text::lossy_text(path)),
        None => Err(ResolveErrorText::NoWallpapers),
    }
}

/// The path of the wallpaper that was picked, or that there was none to pick.
pub fn random_answer(pick: Option<Vec<u8>>) -> (r: Result<String, ResolveError>)
    ensures
        answer_text(r) == pick_outcome(
            match pick {
                Some(path) => Some(path@),
                None => None,
            },
        ),
{
    match pick {
        Some(path) => Ok(text::read_lossy(path.as_slice())),
        None => Err(ResolveError::NoWallpapers),
    }
}

/// The sources of a plan, in the order in which they are resolved.
pub open spec fn plan_sources(plan: PlanText) -> Seq<SourceText> {
    match plan {
        PlanText::Mirror(s) => seq![s],
        PlanText::PerDisplay(entries) => entries.map_values(|a: AssignmentText| a.source),
    }
}

/// The source to resolve after the first `n`, while there is one.
pub fn source_at(plan: &Plan, n: usize) -> (r: Option<&Source>)
    ensures
        r is Some == (n < plan_sources(plan@).len()),
        r is Some ==> r->0@ == plan_sources(plan@)[n as int],
{
    match plan {
        Plan::Mirror(s) => if n == 0 {
            Some(s)
        } else {
            None
        },
        Plan::PerDisplay(v) => if n < v.len() {
            Some(&v[n].source)
        } else {
            None
        },
    }
}

/// The answers go through the sources of the plan in order, up to the first that failed.
pub open spec fn answers_fit(
    plan: PlanText,
    answers: Seq<Result<Seq<char>, ResolveErrorText>>,
) -> bool {
    let n = plan_sources(plan).len();
    &&& answers.len() <= n
    &&& forall|i: int| 0 <= i < answers.len() - 1 ==> (#[trigger] answers[i]) is Ok
    &&& answers.len() < n ==> answers.len() > 0 && answers.last() is Err
}

/// The playback that the answers lead to.
pub open spec fn played(plan: PlanText, answers: Seq<Result<Seq<char>, ResolveErrorText>>) -> Result<
    PlaybackText,
    ResolveErrorText,
> {
    if answers.len() > 0 && answers.last() is Err {
        Err(answers.last()->Err_0)
    } else {
        match plan {
            PlanText::Mirror(_) => Ok(PlaybackText::Mirror(answers[0]->Ok_0)),
            PlanText::PerDisplay(entries) => Ok(
                PlaybackText::PerDisplay(
                    Seq::new(
                        entries.len(),
                        |i: int|
                            ResolvedText {
                                native_id: entries[i].native_id,
                                path: answers[i]->Ok_0,
                            },
                    ),
                ),
            ),
        }
    }
}

/// The answers as plain text, in order.
pub open spec fn answer_texts(answers: Seq<Result<String, ResolveError>>) -> Seq<
    Result<Seq<char>, ResolveErrorText>,
> {
    answers.map_values(|a: Result<String, ResolveError>| answer_text(a))
}

/// The playback of `plan`, given the path of each of its sources in order. The first
/// source without a path ends the answers, and is what comes back.
pub fn resolve(plan: Plan, answers: Vec<Result<String, ResolveError>>) -> (r: Result<
    Playback,
    ResolveError,
>)
    requires
        answers_fit(plan@, answer_texts(answers@)),
    ensures
        (match r {
            Ok(p) => Ok(p@),
            Err(e) => Err(e@),
        }) == played(plan@, answer_texts(answers@)),
{
    let ghost all = answer_texts(answers@);
    let ghost given = answers@;
    let mut rest = answers;
    match rest.pop() {
        None => match plan {
            Plan::PerDisplay(_) => {
                assert(plan_sources(plan@).len() == 0);
                let none: Vec<ResolvedAssignment> = Vec::new();
                assert(resolved_texts(none@) =~= played(plan@, all)->Ok_0->PerDisplay_0);
                Ok(Playback::PerDisplay(none))
            },
            Plan::Mirror(_) => {
                assert(plan_sources(plan@).len() == 1);
                assert(false);
                Err(ResolveError::NoWallpapers)
            },
        },
        Some(Err(e)) => {
            assert(all.last() == answer_text(given.last()));
            Err(e)
        },
        Some(Ok(path)) => {
            assert(all.last() == answer_text(given.last()));
            assert(all.len() == plan_sources(plan@).len());
            match plan {
                Plan::Mirror(_) => Ok(Playback::Mirror(path)),
                Plan::PerDisplay(entries) => {
                    rest.push(Ok(path));
                    assert(rest@ =~= given);
                    assert forall|i: int| 0 <= i < all.len() implies (#[trigger] all[i]) is Ok by {
                        if i == all.len() - 1 {
                            assert(all[i] == all.last());
                        }
                    }
                    let ghost want = played(plan@, all)->Ok_0->PerDisplay_0;
                    let mut resolved: Vec<ResolvedAssignment> = Vec::new();
                    let mut i: usize = 0;
                    assert(resolved_texts(resolved@) =~= want.take(0));
                    while i < entries.len()
                        invariant
                            want.len() == entries@.len(),
                            rest@.len() == entries@.len(),
                            all == answer_texts(rest@),
                            forall|k: int| 0 <= k < all.len() ==> (#[trigger] all[k]) is Ok,
                            forall|k: int|
                                0 <= k < want.len() ==> #[trigger] want[k] == (ResolvedText {
                                    native_id: entries@[k].native_id@,
                                    path: all[k]->Ok_0,
                                }),
                            i <= entries@.len(),
                            resolved_texts(resolved@) == want.take(i as int),
                        decreases entries@.len() - i,
                    {
                        assert(all[i as int] is Ok);
                        match &rest[i] {
                            Ok(path) => {
                                let ghost before = resolved@;
                                resolved.push(
                                    ResolvedAssignment {
                                        native_id: entries[i].native_id.clone(),
                                        path: path.clone(),
                                    },
                                );
                                assert(resolved_texts(resolved@) =~= resolved_texts(before).push(
                                    want[i as int],
                                ));
                                assert(want.take(i + 1) =~= want.take(i as int).push(want[i as int]));
                            },
                            Err(_) => {
                                assert(false);
                            },
                        }
                        i = i + 1;
                    }
                    assert(want.take(i as int) =~= want);
                    Ok(Playback::PerDisplay(resolved))
                },
            }
        },
    }
}

/// Playback keeps the displays of the plan, in order.
pub proof fn resolve_keeps_displays_law(
    plan: PlanText,
    answers: Seq<Result<Seq<char>, ResolveErrorText>>,
)
    requires
        answers_fit(plan, answers),
    ensures
        played(plan, answers) is Ok <==> answers.len() == plan_sources(plan).len() && forall|i: int|
            0 <= i < answers.len() ==> (#[trigger] answers[i]) is Ok,
        played(plan, answers) matches Ok(playback) ==> (match (plan, playback) {
            (PlanText::Mirror(_), PlaybackText::Mirror(path)) => answers[0] == Ok::<
                Seq<char>,
                ResolveErrorText,
            >(path),
            (PlanText::PerDisplay(entries), PlaybackText::PerDisplay(resolved)) => {
                &&& resolved.len() == entries.len()
                &&& forall|i: int|
                    0 <= i < resolved.len() ==> (#[trigger] resolved[i]).native_id
                        == entries[i].native_id && answers[i] == Ok::<Seq<char>, ResolveErrorText>(
                        resolved[i].path,
                    )
            },
            _ => false,
        }),
{
    if answers.len() > 0 && answers.last() is Err {
        assert(answers[answers.len() - 1] is Err);
    }
}

/// What is planned can be played: a playback by display names at least one display, and none
/// of them twice.
pub proof fn playable_law(
    positional_path: Option<Seq<char>>,
    cli_rand: bool,
    cli: Seq<Request>,
    displays: Seq<DisplayText>,
    aliases: Seq<AliasText>,
    platform: Platform,
    answers: Seq<Result<Seq<char>, ResolveErrorText>>,
)
    requires
        planned(positional_path, cli_rand, cli, displays, aliases, platform) matches Ok(plan)
            && answers_fit(plan, answers),
    ensures
        ({
            let plan = planned(positional_path, cli_rand, cli, displays, aliases, platform)->Ok_0;
            played(plan, answers) matches Ok(PlaybackText::PerDisplay(assignments)) ==> {
                &&& assignments.len() > 0
                &&& forall|i: int, j: int|
                    0 <= i < j < assignments.len() ==> (#[trigger] assignments[i]).native_id != (
                    #[trigger] assignments[j]).native_id
            }
        }),
{
    let plan = planned(positional_path, cli_rand, cli, displays, aliases, platform)->Ok_0;
    per_display_law(cli, aliases, platform);
    per_display_law(config_requests(displays), aliases, platform);
    resolve_keeps_displays_law(plan, answers);
    match played(plan, answers) {
        Ok(PlaybackText::PerDisplay(assignments)) => {
            let entries = plan->PerDisplay_0;
            assert forall|i: int, j: int| 0 <= i < j < assignments.len() implies (
            #[trigger] assignments[i]).native_id != (#[trigger] assignments[j]).native_id by {
                assert(native_ids(entries)[i] == entries[i].native_id);
                assert(native_ids(entries)[j] == entries[j].native_id);
            }
        },
        _ => {},
    }
}

/// The arguments for `yt-dlp`, place by place. An option that is set stands with its flag,
/// the value right behind it; one that is not set leaves no trace. The further arguments
/// follow as they were given, and `-g` and the URL stand at the end.
pub proof fn ytdlp_arguments_law(url: Seq<char>, opts: YtDlpOpts)
    ensures
        ({
            let args = ytdlp_arguments(url, opts);
            let cookies: int = if opts.format is Some {
                2
            } else {
                0
            };
            let extra: int = if opts.cookies_from_browser is Some {
                cookies + 2
            } else {
                cookies
            };
            let end: int = extra + opts.extra_args@.len();
            &&& args.len() == end + 2
            &&& opts.format matches Some(format) ==> args[0] == "-f"@ && args[1] == format@
            &&& opts.cookies_from_browser matches Some(browser) ==> args[cookies]
                == "--cookies-from-browser"@ && args[cookies + 1] == browser@
            &&& forall|i: int|
                0 <= i < opts.extra_args@.len() ==> args[extra + i] == (
                #[trigger] opts.extra_args@[i])@
            &&& args[end] == "-g"@
            &&& args[end + 1] == url
        }),
        opts.format is None && opts.cookies_from_browser is None && opts.extra_args@.len() == 0
            ==> ytdlp_arguments(url, opts) == seq!["-g"@, url],
{
    let args = ytdlp_arguments(url, opts);
    let extra: int = (if opts.format is Some {
        2int
    } else {
        0
    }) + (if opts.cookies_from_browser is Some {
        2int
    } else {
        0
    });
    assert forall|i: int| 0 <= i < opts.extra_args@.len() implies args[extra + i] == (
    #[trigger] opts.extra_args@[i])@ by {
        assert(text::views(opts.extra_args@)[i] == opts.extra_args@[i]@);
    }
    if opts.format is None && opts.cookies_from_browser is None && opts.extra_args@.len() == 0 {
        assert(args =~= seq!["-g"@, url]);
    }
}

/// A flag that nobody asked for is not passed on: without a format `-f` is among the
/// arguments only where the user wrote it elsewhere, and so `--cookies-from-browser` without
/// a browser.
pub proof fn ytdlp_unset_law(url: Seq<char>, opts: YtDlpOpts)
    requires
        url != "-f"@,
        url != "--cookies-from-browser"@,
        !text::views(opts.extra_args@).contains("-f"@),
        !text::views(opts.extra_args@).contains("--cookies-from-browser"@),
    ensures
        opts.format is None && (opts.cookies_from_browser matches Some(browser) ==> browser@
            != "-f"@) ==> !ytdlp_arguments(url, opts).contains("-f"@),
        opts.cookies_from_browser is None && (opts.format matches Some(format) ==> format@
            != "--cookies-from-browser"@) ==> !ytdlp_arguments(url, opts).contains(
            "--cookies-from-browser"@,
        ),
{
    reveal_strlit("-f");
    reveal_strlit("-g");
    reveal_strlit("--cookies-from-browser");
    let args = ytdlp_arguments(url, opts);
    let extras = text::views(opts.extra_args@);
    let before = args.len() - 2 - extras.len();
    assert("-g"@[1] != "-f"@[1]);
    assert("-g"@.len() != "--cookies-from-browser"@.len());
    assert("-f"@.len() != "--cookies-from-browser"@.len());
    assert forall|i: int| 0 <= i < args.len() && before <= i implies args[i] != "-f"@ && args[i]
        != "--cookies-from-browser"@ by {
        if i < args.len() - 2 {
            assert(args[i] == extras[i - before]);
            assert(extras.contains(extras[i - before]));
        }
    }
}

/// What an id means. The first alias of that name decides, by its id on the platform and
/// with an error where it has none there; an id that no alias has means itself.
pub proof fn alias_law(id: Seq<char>, aliases: Seq<AliasText>, platform: Platform, i: int)
    ensures
        (forall|j: int| 0 <= j < aliases.len() ==> (#[trigger] aliases[j]).name != id)
            ==> resolved_id(id, aliases, platform) == Ok::<Seq<char>, PlanErrorText>(id),
        0 <= i < aliases.len() && aliases[i].name == id && (forall|j: int|
            0 <= j < i ==> (#[trigger] aliases[j]).name != id) ==> {
            &&& platform == Platform::Wayland && aliases[i].wayland is Some ==> resolved_id(
                id,
                aliases,
                platform,
            ) == Ok::<Seq<char>, PlanErrorText>(aliases[i].wayland->0)
            &&& platform == Platform::Macos && aliases[i].macos is Some ==> resolved_id(
                id,
                aliases,
                platform,
            ) == Ok::<Seq<char>, PlanErrorText>(aliases[i].macos->0)
            &&& platform == Platform::Wayland && aliases[i].wayland is None || platform
                == Platform::Macos && aliases[i].macos is None ==> resolved_id(
                id,
                aliases,
                platform,
            ) == Err::<Seq<char>, PlanErrorText>(PlanErrorText::AliasWithoutId { id, platform })
        },
{
    alias_position_facts(aliases, id);
    match alias_position(aliases, id) {
        Some(k) => {
            assert(aliases[k].name == id);
            if 0 <= i < aliases.len() && aliases[i].name == id && (forall|j: int|
                0 <= j < i ==> (#[trigger] aliases[j]).name != id) {
                assert(k == i);
            }
        },
        None => {},
    }
}

/// The alias that is found has the name, and none before it has.
proof fn alias_position_facts(aliases: Seq<AliasText>, name: Seq<char>)
    ensures
        match alias_position(aliases, name) {
            Some(k) => 0 <= k < aliases.len() && aliases[k].name == name && forall|j: int|
                0 <= j < k ==> (#[trigger] aliases[j]).name != name,
            None => forall|j: int| 0 <= j < aliases.len() ==> (#[trigger] aliases[j]).name != name,
        },
    decreases aliases.len(),
{
    if aliases.len() > 0 {
        let front = aliases.drop_last();
        alias_position_facts(front, name);
        assert(forall|j: int| 0 <= j < front.len() ==> #[trigger] aliases[j] == front[j]);
    }
}

/// What the command line asks for: each pinned display its own path, in order, and behind
/// them each random display a pick.
pub proof fn cli_requests_law(pinned: Seq<(String, String)>, random: Seq<String>, i: int)
    ensures
        cli_requests(pinned, random).len() == pinned.len() + random.len(),
        0 <= i < pinned.len() ==> {
            let request = cli_requests(pinned, random)[i];
            &&& request.id == pinned[i].0@
            &&& request.source == Ok::<SourceText, PlanErrorText>(SourceText::Path(pinned[i].1@))
        },
        0 <= i < random.len() ==> {
            let request = cli_requests(pinned, random)[pinned.len() + i];
            &&& request.id == random[i]@
            &&& request.source == Ok::<SourceText, PlanErrorText>(SourceText::Random)
        },
{
}

/// A plan for single displays, request by request: it is there exactly when every request
/// has a source and an id and no two mean the same display. The entry of a request plays the
/// source that was asked for, on the display that the id means.
pub proof fn per_display_entries_law(
    requests: Seq<Request>,
    aliases: Seq<AliasText>,
    platform: Platform,
)
    ensures
        per_display(requests, aliases, platform) matches Ok(plan) ==> {
            &&& plan is PerDisplay
            &&& plan->PerDisplay_0.len() == requests.len()
            &&& forall|i: int|
                0 <= i < requests.len() ==> {
                    &&& (#[trigger] requests[i]).source == Ok::<SourceText, PlanErrorText>(
                        plan->PerDisplay_0[i].source,
                    )
                    &&& resolved_id(requests[i].id, aliases, platform) == Ok::<
                        Seq<char>,
                        PlanErrorText,
                    >(plan->PerDisplay_0[i].native_id)
                }
            &&& forall|i: int, j: int|
                0 <= i < j < requests.len() ==> (#[trigger] plan->PerDisplay_0[i]).native_id != (
                #[trigger] plan->PerDisplay_0[j]).native_id
        },
        (forall|i: int|
            0 <= i < requests.len() ==> (#[trigger] requests[i]).source is Ok && resolved_id(
                requests[i].id,
                aliases,
                platform,
            ) is Ok) && (forall|i: int, j: int|
            0 <= i < j < requests.len() ==> resolved_id(
                (#[trigger] requests[i]).id,
                aliases,
                platform,
            ) != resolved_id((#[trigger] requests[j]).id, aliases, platform)) ==> per_display(
            requests,
            aliases,
            platform,
        ) is Ok,
{
    all_assigned_facts(requests, aliases, platform);
    lemma_all_assigned_each(requests, aliases, platform);
    match all_assigned(requests, aliases, platform) {
        Ok(entries) => {
            let ids = native_ids(entries);
            first_repeat_law(ids);
            assert forall|i: int| 0 <= i < requests.len() implies {
                &&& (#[trigger] requests[i]).source == Ok::<SourceText, PlanErrorText>(
                    entries[i].source,
                )
                &&& resolved_id(requests[i].id, aliases, platform) == Ok::<
                    Seq<char>,
                    PlanErrorText,
                >(entries[i].native_id)
            } by {
                assert(assigned(requests[i], aliases, platform) is Ok);
            }
            assert forall|i: int, j: int|
                0 <= i < j < requests.len() && ids.no_duplicates() implies (
            #[trigger] entries[i]).native_id != (#[trigger] entries[j]).native_id by {
                assert(ids[i] != ids[j]);
            }
            if !ids.no_duplicates() {
                let (a, b) = first_repeat(ids)->0;
                assert(ids[a] == ids[b]);
                assert(requests[a].source is Ok && requests[b].source is Ok);
                assert(resolved_id(requests[a].id, aliases, platform) == resolved_id(
                    requests[b].id,
                    aliases,
                    platform,
                ));
            }
        },
        Err(_) => {},
    }
}

/// Requests fail with the failure of the first that fails.
proof fn all_assigned_facts(requests: Seq<Request>, aliases: Seq<AliasText>, platform: Platform)
    ensures
        all_assigned(requests, aliases, platform) matches Err(e) ==> exists|i: int|
            0 <= i < requests.len() && assigned(#[trigger] requests[i], aliases, platform) == Err::<
                AssignmentText,
                PlanErrorText,
            >(e) && forall|j: int|
                0 <= j < i ==> assigned(#[trigger] requests[j], aliases, platform) is Ok,
    decreases requests.len(),
{
    if requests.len() > 0 && all_assigned(requests, aliases, platform) is Err {
        let front = requests.drop_last();
        all_assigned_facts(front, aliases, platform);
        lemma_all_assigned_each(front, aliases, platform);
        match all_assigned(front, aliases, platform) {
            Err(e) => {
                let i = choose|i: int|
                    0 <= i < front.len() && assigned(#[trigger] front[i], aliases, platform)
                        == Err::<AssignmentText, PlanErrorText>(e) && forall|j: int|
                        0 <= j < i ==> assigned(#[trigger] front[j], aliases, platform) is Ok;
                assert(requests[i] == front[i]);
                assert forall|j: int| 0 <= j < i implies assigned(
                    #[trigger] requests[j],
                    aliases,
                    platform,
                ) is Ok by {
                    assert(requests[j] == front[j]);
                }
            },
            Ok(_) => {
                let last = requests.len() - 1;
                assert(assigned(requests[last], aliases, platform) is Err);
                assert forall|j: int| 0 <= j < last implies assigned(
                    #[trigger] requests[j],
                    aliases,
                    platform,
                ) is Ok by {
                    assert(requests[j] == front[j]);
                    assert(assigned(front[j], aliases, platform) is Ok);
                }
            },
        }
    }
}

/// The request at this place is the first bad one, and this is what is wrong with it: its
/// source or, where that is good, its id.
pub open spec fn is_first_bad(
    requests: Seq<Request>,
    aliases: Seq<AliasText>,
    platform: Platform,
    e: PlanErrorText,
    i: int,
) -> bool {
    &&& 0 <= i < requests.len()
    &&& requests[i].source == Err::<SourceText, PlanErrorText>(e) || (requests[i].source is Ok
        && resolved_id(requests[i].id, aliases, platform) == Err::<Seq<char>, PlanErrorText>(e))
    &&& forall|j: int|
        0 <= j < i ==> (#[trigger] requests[j]).source is Ok && resolved_id(
            requests[j].id,
            aliases,
            platform,
        ) is Ok
}

/// Why a plan for single displays fails. A bad request comes first, the first of them: by
/// its source or, where that is good, by its id. Where all requests are good, two mean the
/// same display; the error names that display and the places of the two requests, of which
/// the second is the first to repeat a display.
pub proof fn per_display_error_law(
    requests: Seq<Request>,
    aliases: Seq<AliasText>,
    platform: Platform,
    e: PlanErrorText,
)
    requires
        per_display(requests, aliases, platform) == Err::<PlanText, PlanErrorText>(e),
    ensures
        (exists|i: int| #[trigger] is_first_bad(requests, aliases, platform, e, i)) || (
        e matches PlanErrorText::AssignedTwice { native_id, first, second } && {
            &&& 0 <= first < second < requests.len()
            &&& resolved_id(requests[first].id, aliases, platform) == Ok::<
                Seq<char>,
                PlanErrorText,
            >(native_id)
            &&& resolved_id(requests[second].id, aliases, platform) == Ok::<
                Seq<char>,
                PlanErrorText,
            >(native_id)
            &&& forall|i: int, j: int|
                0 <= i < j < second ==> resolved_id(
                    (#[trigger] requests[i]).id,
                    aliases,
                    platform,
                ) != resolved_id((#[trigger] requests[j]).id, aliases, platform)
        }),
{
    all_assigned_facts(requests, aliases, platform);
    lemma_all_assigned_each(requests, aliases, platform);
    match all_assigned(requests, aliases, platform) {
        Ok(entries) => {
            let ids = native_ids(entries);
            assert(ids.len() == requests.len());
            assert forall|i: int| 0 <= i < requests.len() implies resolved_id(
                (#[trigger] requests[i]).id,
                aliases,
                platform,
            ) == Ok::<Seq<char>, PlanErrorText>(ids[i]) by {
                assert(assigned(requests[i], aliases, platform) == Ok::<
                    AssignmentText,
                    PlanErrorText,
                >(entries[i]));
            }
            first_repeat_law(ids);
            let (a, b) = first_repeat(ids)->0;
            assert(e == PlanErrorText::AssignedTwice { native_id: ids[b], first: a, second: b });
            assert forall|i: int, j: int| 0 <= i < j < b implies resolved_id(
                (#[trigger] requests[i]).id,
                aliases,
                platform,
            ) != resolved_id((#[trigger] requests[j]).id, aliases, platform) by {
                assert(ids.take(b)[i] != ids.take(b)[j]);
            }
        },
        Err(_) => {
            let i = choose|i: int|
                0 <= i < requests.len() && assigned(#[trigger] requests[i], aliases, platform)
                    == Err::<AssignmentText, PlanErrorText>(e) && forall|j: int|
                    0 <= j < i ==> assigned(#[trigger] requests[j], aliases, platform) is Ok;
            assert forall|j: int| 0 <= j < i implies (#[trigger] requests[j]).source is Ok
                && resolved_id(requests[j].id, aliases, platform) is Ok by {
                assert(assigned(requests[j], aliases, platform) is Ok);
            }
            assert(is_first_bad(requests, aliases, platform, e, i));
        },
    }
}

/// What one `[[display]]` entry asks for, by the two things it can say: a path alone plays
/// it, `random` alone picks, and both or neither is an error that names the entry.
pub proof fn display_request_law(d: DisplayText)
    ensures
        display_request(d).id == d.id,
        d.path is Some && !d.random ==> display_request(d).source == Ok::<
            SourceText,
            PlanErrorText,
        >(SourceText::Path(d.path->0)),
        d.path is None && d.random ==> display_request(d).source == Ok::<SourceText, PlanErrorText>(
            SourceText::Random,
        ),
        d.path is Some && d.random ==> display_request(d).source == Err::<
            SourceText,
            PlanErrorText,
        >(PlanErrorText::TwoSources { id: d.id }),
        d.path is None && !d.random ==> display_request(d).source == Err::<
            SourceText,
            PlanErrorText,
        >(PlanErrorText::MissingSource { id: d.id }),
{
}

/// One source for all displays: a path on the command line is played as it was given, also
/// beside `--rand`; `--rand` alone picks. Without any of these the configuration decides,
/// entry by entry.
pub proof fn mirror_law(
    positional_path: Option<Seq<char>>,
    cli_rand: bool,
    displays: Seq<DisplayText>,
    aliases: Seq<AliasText>,
    platform: Platform,
)
    ensures
        ({
            let plan = planned(
                positional_path,
                cli_rand,
                Seq::empty(),
                displays,
                aliases,
                platform,
            );
            &&& positional_path matches Some(path) ==> plan == Ok::<PlanText, PlanErrorText>(
                PlanText::Mirror(SourceText::Path(path)),
            )
            &&& positional_path is None && cli_rand ==> plan == Ok::<PlanText, PlanErrorText>(
                PlanText::Mirror(SourceText::Random),
            )
            &&& positional_path is None && !cli_rand && plan is Ok ==> {
                &&& plan->Ok_0 is PerDisplay
                &&& plan->Ok_0->PerDisplay_0.len() == displays.len()
                &&& forall|i: int|
                    0 <= i < displays.len() ==> {
                        &&& resolved_id((#[trigger] displays[i]).id, aliases, platform) == Ok::<
                            Seq<char>,
                            PlanErrorText,
                        >(plan->Ok_0->PerDisplay_0[i].native_id)
                        &&& plan->Ok_0->PerDisplay_0[i].source == (match displays[i].path {
                            Some(path) => SourceText::Path(path),
                            None => SourceText::Random,
                        })
                        &&& displays[i].random == displays[i].path is None
                    }
            }
        }),
{
    let requests = config_requests(displays);
    per_display_entries_law(requests, aliases, platform);
    if positional_path is None && !cli_rand && displays.len() > 0 {
        match per_display(requests, aliases, platform) {
            Ok(plan) => {
                assert forall|i: int| 0 <= i < displays.len() implies {
                    &&& resolved_id((#[trigger] displays[i]).id, aliases, platform) == Ok::<
                        Seq<char>,
                        PlanErrorText,
                    >(plan->PerDisplay_0[i].native_id)
                    &&& plan->PerDisplay_0[i].source == (match displays[i].path {
                        Some(path) => SourceText::Path(path),
                        None => SourceText::Random,
                    })
                    &&& displays[i].random == displays[i].path is None
                } by {
                    assert(requests[i] == display_request(displays[i]));
                }
            },
            Err(_) => {},
        }
    }
}

/// How a source gets its path. Only a path can stand for a video page, and then `yt-dlp` is
/// asked for that page; a URL loses the blanks around it and nothing else, and never goes
/// through the home directory; a random source is always picked.
pub proof fn source_law(path: Seq<char>, page: Option<Seq<char>>, home: Option<Seq<char>>)
    ensures
        source_step(SourceText::Random, page, home) == SourceStepText::PickRandom,
        page matches Some(url) ==> source_step(SourceText::Path(path), page, home)
            == SourceStepText::AskYtDlp(url),
        page is None && config::is_url_text(path) ==> source_step(
            SourceText::Path(path),
            page,
            home,
        ) == SourceStepText::Ready(text::trimmed(path)),
        page is None && !config::is_url_text(path) ==> source_step(
            SourceText::Path(path),
            page,
            home,
        ) == SourceStepText::Ready(config::tilde_expanded(path, home)),
{
}

/// What comes of asking `yt-dlp`. A failure is told with all that stands on its standard
/// error, whatever it printed; a success gives the first line that it printed, whenever it
/// printed any text, and what else it wrote plays no part.
pub proof fn ytdlp_outcome_law(stdout: Seq<u8>, stderr: Seq<u8>, other: Seq<u8>)
    ensures
        ytdlp_outcome(false, stdout, stderr) == Err::<Seq<char>, ResolveErrorText>(
            ResolveErrorText::YtDlpFailed { stderr: text::lossy_text(stderr) },
        ),
        ytdlp_outcome(true, stdout, stderr) == ytdlp_outcome(true, stdout, other),
        ytdlp_outcome(true, stdout, stderr) == Err::<Seq<char>, ResolveErrorText>(
            ResolveErrorText::YtDlpNotUtf8,
        ) <==> !vstd::utf8::valid_utf8(stdout),
        ytdlp_outcome(true, Seq::empty(), stderr) == Err::<Seq<char>, ResolveErrorText>(
            ResolveErrorText::YtDlpNoOutput,
        ),
        ytdlp_outcome(true, stdout, stderr) matches Ok(line) ==> text::first_line_of(
            vstd::utf8::decode_utf8(stdout),
        ) == Some(line),
        vstd::utf8::valid_utf8(stdout) && stdout.len() > 0 ==> ytdlp_outcome(
            true,
            stdout,
            stderr,
        ) is Ok,
{
    if vstd::utf8::valid_utf8(stdout) && stdout.len() > 0 {
        vstd::utf8::decode_utf8_first_scalar(stdout);
        assert(vstd::utf8::decode_utf8(stdout).len() > 0);
    }
}

/// The sources of a plan, in the order of its displays: one for each, and the one there is
/// where all show the same.
pub proof fn plan_sources_law(entries: Seq<AssignmentText>, source: SourceText, i: int)
    ensures
        plan_sources(PlanText::Mirror(source)) == seq![source],
        plan_sources(PlanText::PerDisplay(entries)).len() == entries.len(),
        0 <= i < entries.len() ==> plan_sources(PlanText::PerDisplay(entries))[i]
            == entries[i].source,
{
}

/// A wallpaper that was picked is played by its path, whatever that is; only where none was
/// picked there is an error.
pub proof fn pick_law(pick: Option<Seq<u8>>)
    ensures
        pick matches Some(path) ==> pick_outcome(pick) == Ok::<Seq<char>, ResolveErrorText>(
            text::lossy_text(path),
        ),
        pick is None ==> pick_outcome(pick) == Err::<Seq<char>, ResolveErrorText>(
            ResolveErrorText::NoWallpapers,
        ),
{
}

/// The messages name what is wrong: the display or the alias as the user wrote it, the key of
/// the platform, and the places of both entries, the earlier one first.
pub proof fn plan_message_law(id: Seq<char>, first: int, second: int)
    requires
        0 <= first < second,
    ensures
        (PlanErrorText::AliasWithoutId { id, platform: Platform::Wayland }).message() == "alias `"@
            + id + "` has no `wayland = \"...\"` entry"@,
        (PlanErrorText::AliasWithoutId { id, platform: Platform::Macos }).message() == "alias `"@
            + id + "` has no `macos = \"...\"` entry"@,
        (PlanErrorText::TwoSources { id }).message() == "[[display]] `"@ + id
            + "`: set exactly one of `path` or `random`"@,
        (PlanErrorText::MissingSource { id }).message() == "[[display]] `"@ + id
            + "`: needs either `path` or `random = true`"@,
        (PlanErrorText::AssignedTwice { native_id: id, first, second }).message() == "display `"@
            + id + "` assigned twice (entries "@ + text::decimal(first as nat) + " and "@
            + text::decimal(second as nat) + ")"@,
{
}

/// What the command line asks for display by display is planned as it stands, whatever else is
/// asked for: an entry for each request, in order, with its source and with the display that
/// its id means. It fails exactly as these requests fail.
pub proof fn cli_plan_law(
    positional_path: Option<Seq<char>>,
    cli_rand: bool,
    cli: Seq<Request>,
    displays: Seq<DisplayText>,
    aliases: Seq<AliasText>,
    platform: Platform,
)
    requires
        cli.len() > 0,
    ensures
        ({
            let plan = planned(positional_path, cli_rand, cli, displays, aliases, platform);
            &&& plan == per_display(cli, aliases, platform)
            &&& plan is Ok ==> {
                &&& plan->Ok_0 is PerDisplay
                &&& plan->Ok_0->PerDisplay_0.len() == cli.len()
                &&& forall|i: int|
                    0 <= i < cli.len() ==> {
                        &&& (#[trigger] cli[i]).source == Ok::<SourceText, PlanErrorText>(
                            plan->Ok_0->PerDisplay_0[i].source,
                        )
                        &&& resolved_id(cli[i].id, aliases, platform) == Ok::<
                            Seq<char>,
                            PlanErrorText,
                        >(plan->Ok_0->PerDisplay_0[i].native_id)
                    }
            }
        }),
{
    per_display_entries_law(cli, aliases, platform);
}

/// The message of a failed `yt-dlp` holds all that it said; the others stand for themselves.
pub proof fn resolve_message_law(stderr: Seq<char>)
    ensures
        (ResolveErrorText::YtDlpFailed { stderr }).message() == "yt-dlp failed:\n"@ + stderr,
        ResolveErrorText::NoWallpapers.message()
            == "no wallpapers found in configured search paths"@,
        ResolveErrorText::YtDlpNotRun.message() == "failed to run yt-dlp (is it installed?)"@,
        ResolveErrorText::YtDlpNotUtf8.message() == "yt-dlp output is not valid UTF-8"@,
        ResolveErrorText::YtDlpNoOutput.message() == "yt-dlp produced no output"@,
{
}

/// Playback fails with the error of the source that failed, and only where one did.
pub proof fn resolve_error_law(plan: PlanText, answers: Seq<Result<Seq<char>, ResolveErrorText>>)
    requires
        answers_fit(plan, answers),
    ensures
        played(plan, answers) is Err <==> exists|i: int|
            0 <= i < answers.len() && (#[trigger] answers[i]) is Err,
        played(plan, answers) matches Err(e) ==> exists|i: int|
            0 <= i < answers.len() && #[trigger] answers[i] == Err::<Seq<char>, ResolveErrorText>(
                e,
            ) && forall|j: int| 0 <= j < i ==> (#[trigger] answers[j]) is Ok,
{
    if answers.len() > 0 && answers.last() is Err {
        assert(answers[answers.len() - 1] is Err);
    }
    if exists|i: int| 0 <= i < answers.len() && (#[trigger] answers[i]) is Err {
        let i = choose|i: int| 0 <= i < answers.len() && (#[trigger] answers[i]) is Err;
        assert(i == answers.len() - 1);
    }
}

} // verus!
