//! Text as sequences of characters.
use vstd::prelude::*;

verus! {

/// `String::push`: appends one character at the end.
pub assume_specification[ String::push ](s: &mut String, c: char)
    ensures
        final(s)@ == old(s)@.push(c),
;

/// The error of [`core::str::from_utf8`].
#[verifier::external_type_specification]
#[verifier::external_body]
pub struct ExUtf8Error(core::str::Utf8Error);

/// `core::str::from_utf8`: reads bytes as text, and succeeds on valid UTF-8 only.
pub assume_specification[ core::str::from_utf8 ](v: &[u8]) -> (r: Result<
    &str,
    core::str::Utf8Error,
>)
    ensures
        r is Ok == vstd::utf8::valid_utf8(v@),
        r is Ok ==> r->Ok_0@ == vstd::utf8::decode_utf8(v@),
;

/// What `String::from_utf8_lossy` makes of bytes.
pub uninterp spec fn lossy_text(bytes: Seq<u8>) -> Seq<char>;

/// `String::from_utf8_lossy`: reads bytes as text, with a replacement character where
/// they are not valid UTF-8. Valid UTF-8 is read as it is.
#[verifier::external_body]
pub(crate) fn read_lossy(bytes: &[u8]) -> (r: String)
    ensures
        r@ == lossy_text(bytes@),
        vstd::utf8::valid_utf8(bytes@) ==> r@ == vstd::utf8::decode_utf8(bytes@),
{
    String::from_utf8_lossy(bytes).into_owned()
}

/// What `str::to_lowercase` makes of a text.
pub uninterp spec fn lowercase_text(s: Seq<char>) -> Seq<char>;

/// `s` with the letters `A` to `Z` in lower case.
pub open spec fn ascii_lowercase(s: Seq<char>) -> Seq<char> {
    s.map_values(
        |c: char|
            if 65 <= c as int <= 90 {
                (c as int + 32) as char
            } else {
                c
            },
    )
}

/// `str::to_lowercase`: the text in lower case as Unicode defines it. On ASCII text that
/// is `A` to `Z` turned into `a` to `z`.
pub assume_specification[ str::to_lowercase ](s: &str) -> (r: String)
    ensures
        r@ == lowercase_text(s@),
        vstd::utf8::is_ascii_chars(s@) ==> r@ == ascii_lowercase(s@),
;

/// What `str::to_uppercase` makes of a text.
pub uninterp spec fn uppercase_text(s: Seq<char>) -> Seq<char>;

/// `s` with the letters `a` to `z` in upper case.
pub open spec fn ascii_uppercase(s: Seq<char>) -> Seq<char> {
    s.map_values(
        |c: char|
            if 97 <= c as int <= 122 {
                (c as int - 32) as char
            } else {
                c
            },
    )
}

/// `str::to_uppercase`: the text in upper case as Unicode defines it. On ASCII text that
/// is `a` to `z` turned into `A` to `Z`.
pub assume_specification[ str::to_uppercase ](s: &str) -> (r: String)
    ensures
        r@ == uppercase_text(s@),
        vstd::utf8::is_ascii_chars(s@) ==> r@ == ascii_uppercase(s@),
;

/// The text of a string that may be missing.
pub open spec fn str_view(s: Option<&str>) -> Option<Seq<char>> {
    match s {
        Some(s) => Some(s@),
        None => None,
    }
}

/// The texts that strings hold, in order.
pub open spec fn views(strings: Seq<String>) -> Seq<Seq<char>> {
    strings.map_values(|s: String| s@)
}

/// The characters of a string, in order.
pub fn chars_of(s: &str) -> (v: Vec<char>)
    ensures
        v@ == s@,
{
    let mut v: Vec<char> = Vec::new();
    for c in it: s.chars()
        invariant
            it.seq() == s@,
            v@ == s@.take(it.index() as int),
    {
        v.push(c);
        assert(s@.take(it.index() + 1) == s@.take(it.index() as int).push(c));
    }
    assert(s@.take(s@.len() as int) == s@);
    v
}

/// The string with the characters `v[from..to]`.
pub fn text_of(v: &Vec<char>, from: usize, to: usize) -> (s: String)
    requires
        from <= to <= v@.len(),
    ensures
        s@ == v@.subrange(from as int, to as int),
{
    let mut s = String::new();
    let mut i: usize = from;
    while i < to
        invariant
            from <= i <= to <= v@.len(),
            s@ == v@.subrange(from as int, i as int),
        decreases to - i,
    {
        s.push(v[i]);
        i = i + 1;
        assert(v@.subrange(from as int, i as int) == v@.subrange(from as int, i - 1).push(
            v@[i - 1],
        ));
    }
    s
}

/// Whether two strings hold the same characters.
pub fn same_text(a: &str, b: &str) -> (r: bool)
    ensures
        r == (a@ == b@),
{
    let x = chars_of(a);
    let y = chars_of(b);
    if x.len() != y.len() {
        return false;
    }
    let mut i: usize = 0;
    while i < x.len()
        invariant
            x@ == a@,
            y@ == b@,
            x@.len() == y@.len(),
            i <= x@.len(),
            forall|j: int| 0 <= j < i ==> x@[j] == y@[j],
        decreases x@.len() - i,
    {
        if x[i] != y[i] {
            return false;
        }
        i = i + 1;
    }
    assert(x@ =~= y@);
    true
}

/// `text` begins with `prefix`.
pub open spec fn has_prefix(text: Seq<char>, prefix: Seq<char>) -> bool {
    prefix.len() <= text.len() && text.take(prefix.len() as int) == prefix
}

/// Whether `s` begins with `prefix`.
pub fn starts_with(s: &str, prefix: &str) -> (r: bool)
    ensures
        r == has_prefix(s@, prefix@),
{
    let x = chars_of(s);
    let y = chars_of(prefix);
    if y.len() > x.len() {
        return false;
    }
    let mut i: usize = 0;
    while i < y.len()
        invariant
            x@ == s@,
            y@ == prefix@,
            y@.len() <= x@.len(),
            i <= y@.len(),
            forall|j: int| 0 <= j < i ==> x@[j] == y@[j],
        decreases y@.len() - i,
    {
        if x[i] != y[i] {
            assert(s@.take(y@.len() as int)[i as int] != y@[i as int]);
            return false;
        }
        i = i + 1;
    }
    assert(s@.take(y@.len() as int) =~= y@);
    true
}

/// The Unicode `White_Space` characters.
pub open spec fn is_blank(c: char) -> bool {
    let u = c as u32;
    ||| 0x9 <= u <= 0xd
    ||| u == 0x20
    ||| u == 0x85
    ||| u == 0xa0
    ||| u == 0x1680
    ||| 0x2000 <= u <= 0x200a
    ||| u == 0x2028
    ||| u == 0x2029
    ||| u == 0x202f
    ||| u == 0x205f
    ||| u == 0x3000
}

/// Whether `c` is a Unicode `White_Space` character.
pub fn blank(c: char) -> (r: bool)
    ensures
        r == is_blank(c),
{
    let u: u32 = c as u32;
    (0x9 <= u && u <= 0xd) || u == 0x20 || u == 0x85 || u == 0xa0 || u == 0x1680 || (0x2000 <= u && u
        <= 0x200a) || u == 0x2028 || u == 0x2029 || u == 0x202f || u == 0x205f || u == 0x3000
}

/// `s` without its leading blanks.
pub open spec fn trimmed_start(s: Seq<char>) -> Seq<char>
    decreases s.len(),
{
    if s.len() > 0 && is_blank(s[0]) {
        trimmed_start(s.skip(1))
    } else {
        s
    }
}

/// `s` without its trailing blanks.
pub open spec fn trimmed_end(s: Seq<char>) -> Seq<char>
    decreases s.len(),
{
    if s.len() > 0 && is_blank(s.last()) {
        trimmed_end(s.drop_last())
    } else {
        s
    }
}

/// `s` without blanks at either end.
pub open spec fn trimmed(s: Seq<char>) -> Seq<char> {
    trimmed_end(trimmed_start(s))
}

/// The text without blanks at either end.
pub fn trim(s: &str) -> (r: String)
    ensures
        r@ == trimmed(s@),
{
    let v = chars_of(s);
    let mut from: usize = 0;
    assert(v@.skip(0) =~= v@);
    while from < v.len() && blank(v[from])
        invariant
            v@ == s@,
            from <= v@.len(),
            trimmed_start(s@) == trimmed_start(v@.skip(from as int)),
        decreases v@.len() - from,
    {
        assert(v@.skip(from as int).skip(1) =~= v@.skip(from + 1));
        from = from + 1;
    }
    let ghost inner = v@.skip(from as int);
    assert(trimmed_start(s@) == inner);
    let mut to: usize = v.len();
    assert(v@.subrange(from as int, to as int) =~= inner);
    while from < to && blank(v[to - 1])
        invariant
            v@ == s@,
            from <= to <= v@.len(),
            trimmed_end(inner) == trimmed_end(v@.subrange(from as int, to as int)),
        decreases to - from,
    {
        assert(v@.subrange(from as int, to as int).drop_last() =~= v@.subrange(
            from as int,
            to - 1,
        ));
        to = to - 1;
    }
    text_of(&v, from, to)
}

/// The decimal digit `d`.
pub open spec fn digit(d: int) -> char {
    (48 + d) as char
}

/// `n` in decimal, without leading zeros.
pub open spec fn decimal(n: nat) -> Seq<char>
    decreases n,
{
    if n < 10 {
        seq![digit(n as int)]
    } else {
        decimal(n / 10).push(digit((n % 10) as int))
    }
}

/// `n` in decimal.
pub fn decimal_text(n: u64) -> (r: String)
    ensures
        r@ == decimal(n as nat),
    decreases n,
{
    let d: u8 = (n % 10) as u8;
    let c: char = (48u8 + d) as char;
    if n < 10 {
        let mut r = String::new();
        r.push(c);
        assert(r@ =~= seq![digit(n as int)]);
        r
    } else {
        let mut r = decimal_text(n / 10);
        r.push(c);
        r
    }
}

/// A number in decimal digits, behind a minus sign where it is negative.
pub open spec fn signed_decimal(n: int) -> Seq<char> {
    if n < 0 {
        "-"@ + decimal((-n) as nat)
    } else {
        decimal(n as nat)
    }
}

/// A number in decimal digits, behind a minus sign where it is negative.
pub fn signed_text(n: i32) -> (r: String)
    ensures
        r@ == signed_decimal(n as int),
{
    if n < 0 {
        let positive: i64 = 0 - n as i64;
        let digits = decimal_text(positive as u64);
        join2("-", digits.as_str())
    } else {
        decimal_text(n as u64)
    }
}

/// The position of the first `c` in `s`, or the length of `s` when there is none.
pub open spec fn first_position(s: Seq<char>, c: char) -> int
    decreases s.len(),
{
    if s.len() == 0 || s[0] == c {
        0
    } else {
        1 + first_position(s.skip(1), c)
    }
}

/// The position of the first `c` in `v`.
pub fn find_char(v: &Vec<char>, c: char) -> (r: usize)
    ensures
        r == first_position(v@, c),
        r <= v@.len(),
        r < v@.len() ==> v@[r as int] == c,
        forall|j: int| 0 <= j < r ==> v@[j] != c,
{
    let mut i: usize = 0;
    assert(v@.skip(0) =~= v@);
    while i < v.len() && v[i] != c
        invariant
            i <= v@.len(),
            first_position(v@, c) == i + first_position(v@.skip(i as int), c),
            forall|j: int| 0 <= j < i ==> v@[j] != c,
        decreases v@.len() - i,
    {
        assert(v@.skip(i as int).skip(1) =~= v@.skip(i + 1));
        i = i + 1;
    }
    i
}

/// The first line of `s`, without its line ending: `None` when `s` is empty. A line
/// ends with a line feed, or with a carriage return and a line feed.
pub open spec fn first_line_of(s: Seq<char>) -> Option<Seq<char>> {
    let n = first_position(s, '\n');
    if s.len() == 0 {
        None
    } else if n == s.len() {
        Some(s)
    } else if n > 0 && s[n - 1] == '\r' {
        Some(s.take(n - 1))
    } else {
        Some(s.take(n))
    }
}

/// The first line of the text, or `None` when there is none.
pub fn first_line(s: &str) -> (r: Option<String>)
    ensures
        r is Some == first_line_of(s@) is Some,
        r is Some ==> r->0@ == first_line_of(s@)->0,
{
    let v = chars_of(s);
    if v.len() == 0 {
        return None;
    }
    let n = find_char(&v, '\n');
    let end: usize = if n < v.len() && n > 0 && v[n - 1] == '\r' {
        n - 1
    } else {
        n
    };
    assert(v@.subrange(0, end as int) =~= v@.take(end as int));
    assert(n == v@.len() ==> v@.take(end as int) =~= v@);
    Some(text_of(&v, 0, end))
}

/// The lines of `s`, without their line endings. The last line needs none.
pub open spec fn lines_of(s: Seq<char>) -> Seq<Seq<char>>
    decreases s.len(),
    via lines_shrink
{
    let n = first_position(s, '\n');
    if s.len() == 0 {
        Seq::empty()
    } else if n >= s.len() {
        seq![s]
    } else {
        seq![first_line_of(s)->0] + lines_of(s.skip(n + 1))
    }
}

#[via_fn]
proof fn lines_shrink(s: Seq<char>) {
    position_bound(s, '\n');
}

/// A position lies within the text, or just behind it.
proof fn position_bound(s: Seq<char>, c: char)
    ensures
        0 <= first_position(s, c) <= s.len(),
    decreases s.len(),
{
    if s.len() > 0 && s[0] != c {
        position_bound(s.skip(1), c);
    }
}

/// The lines of the text, without their line endings.
pub fn lines(s: &str) -> (r: Vec<String>)
    ensures
        views(r@) == lines_of(s@),
{
    let mut rest = chars_of(s);
    let mut r: Vec<String> = Vec::new();
    assert(views(r@) + lines_of(rest@) =~= lines_of(s@));
    while rest.len() > 0
        invariant
            views(r@) + lines_of(rest@) == lines_of(s@),
        decreases rest@.len(),
    {
        let n = find_char(&rest, '\n');
        let ghost was = r@;
        if n == rest.len() {
            r.push(text_of(&rest, 0, n));
            assert(rest@.subrange(0, n as int) =~= rest@);
            assert(views(r@) =~= views(was) + seq![rest@]);
            return r;
        }
        let end: usize = if n > 0 && rest[n - 1] == '\r' {
            n - 1
        } else {
            n
        };
        assert(rest@.subrange(0, end as int) =~= rest@.take(end as int));
        r.push(text_of(&rest, 0, end));
        assert(views(r@) =~= views(was).push(first_line_of(rest@)->0));
        let tail = tail_of(&rest, n + 1);
        assert(views(r@) + lines_of(tail@) =~= views(was) + lines_of(rest@));
        rest = tail;
    }
    assert(views(r@) + lines_of(rest@) =~= views(r@));
    r
}

/// The characters from this position on.
fn tail_of(v: &Vec<char>, from: usize) -> (r: Vec<char>)
    requires
        from <= v@.len(),
    ensures
        r@ == v@.skip(from as int),
{
    let mut r: Vec<char> = Vec::new();
    let mut i: usize = from;
    while i < v.len()
        invariant
            from <= i <= v@.len(),
            r@ == v@.subrange(from as int, i as int),
        decreases v@.len() - i,
    {
        r.push(v[i]);
        i = i + 1;
        assert(v@.subrange(from as int, i as int) =~= v@.subrange(from as int, i - 1).push(
            v@[i - 1],
        ));
    }
    assert(v@.subrange(from as int, i as int) =~= v@.skip(from as int));
    r
}

/// What follows the last `c` in `s`: all of `s` when it holds none.
pub open spec fn after_last(s: Seq<char>, c: char) -> Seq<char>
    decreases s.len(),
{
    if s.len() == 0 || s.last() == c {
        Seq::empty()
    } else {
        after_last(s.drop_last(), c).push(s.last())
    }
}

/// What follows the last `c` in the text.
pub fn last_segment(s: &str, c: char) -> (r: String)
    ensures
        r@ == after_last(s@, c),
{
    let v = chars_of(s);
    let mut i: usize = v.len();
    assert(v@.take(i as int) =~= v@);
    assert(after_last(v@, c) =~= after_last(v@.take(i as int), c) + v@.skip(i as int));
    while i > 0 && v[i - 1] != c
        invariant
            v@ == s@,
            i <= v@.len(),
            after_last(v@, c) =~= after_last(v@.take(i as int), c) + v@.skip(i as int),
        decreases i,
    {
        assert(v@.take(i as int).drop_last() =~= v@.take(i - 1));
        assert(seq![v@[i - 1]] + v@.skip(i as int) =~= v@.skip(i - 1));
        i = i - 1;
    }
    assert(v@.subrange(i as int, v@.len() as int) =~= v@.skip(i as int));
    text_of(&v, i, v.len())
}

/// `a` stands before `b` in the order of code points.
pub open spec fn text_before(a: Seq<char>, b: Seq<char>) -> bool
    decreases a.len(),
{
    if b.len() == 0 {
        false
    } else if a.len() == 0 {
        true
    } else if a[0] == b[0] {
        text_before(a.skip(1), b.skip(1))
    } else {
        (a[0] as int) < (b[0] as int)
    }
}

/// Whether `a` stands before `b`.
pub fn before(a: &str, b: &str) -> (r: bool)
    ensures
        r == text_before(a@, b@),
{
    let x = chars_of(a);
    let y = chars_of(b);
    let mut i: usize = 0;
    assert(x@.skip(0) =~= x@ && y@.skip(0) =~= y@);
    while i < x.len() && i < y.len() && x[i] == y[i]
        invariant
            x@ == a@,
            y@ == b@,
            i <= x@.len(),
            i <= y@.len(),
            text_before(a@, b@) == text_before(x@.skip(i as int), y@.skip(i as int)),
        decreases x@.len() - i,
    {
        assert(x@.skip(i as int).skip(1) =~= x@.skip(i + 1));
        assert(y@.skip(i as int).skip(1) =~= y@.skip(i + 1));
        i = i + 1;
    }
    if i >= y.len() {
        false
    } else if i >= x.len() {
        true
    } else {
        x[i] < y[i]
    }
}

/// Of two different texts, one stands before the other.
pub proof fn text_order_total(a: Seq<char>, b: Seq<char>)
    ensures
        a == b || text_before(a, b) || text_before(b, a),
        !(text_before(a, b) && text_before(b, a)),
        a == b ==> !text_before(a, b),
    decreases a.len(),
{
    if a.len() > 0 && b.len() > 0 {
        text_order_total(a.skip(1), b.skip(1));
        if a[0] == b[0] && a.skip(1) == b.skip(1) {
            assert(a =~= seq![a[0]] + a.skip(1));
            assert(b =~= seq![b[0]] + b.skip(1));
        }
    } else {
        assert(a.len() == 0 && b.len() == 0 ==> a =~= b);
    }
}

/// The order is transitive.
pub proof fn text_order_transitive(a: Seq<char>, b: Seq<char>, c: Seq<char>)
    requires
        text_before(a, b),
        text_before(b, c),
    ensures
        text_before(a, c),
    decreases a.len(),
{
    if a.len() > 0 && a[0] == b[0] && b[0] == c[0] {
        text_order_transitive(a.skip(1), b.skip(1), c.skip(1));
    }
}

/// The texts one after another.
pub fn join2(a: &str, b: &str) -> (r: String)
    ensures
        r@ == a@ + b@,
{
    let mut r = a.to_owned();
    r.append(b);
    r
}

/// The texts one after another.
pub fn join3(a: &str, b: &str, c: &str) -> (r: String)
    ensures
        r@ == a@ + b@ + c@,
{
    let mut r = join2(a, b);
    r.append(c);
    r
}

/// Whether one of the strings holds this text.
pub fn has_text(strings: &Vec<String>, s: &str) -> (r: bool)
    ensures
        r == views(strings@).contains(s@),
{
    let ghost texts = views(strings@);
    let mut i: usize = 0;
    while i < strings.len()
        invariant
            i <= strings@.len(),
            texts == views(strings@),
            forall|k: int| 0 <= k < i ==> texts[k] != s@,
        decreases strings@.len() - i,
    {
        assert(texts[i as int] == strings@[i as int]@);
        if same_text(strings[i].as_str(), s) {
            return true;
        }
        i = i + 1;
    }
    false
}

/// A text begins with a prefix exactly when it is the prefix and something behind it.
pub proof fn prefix_law(s: Seq<char>, prefix: Seq<char>, rest: Seq<char>)
    ensures
        has_prefix(prefix + rest, prefix),
        has_prefix(s, prefix) ==> s == prefix + s.skip(prefix.len() as int),
        s.len() < prefix.len() ==> !has_prefix(s, prefix),
{
    assert((prefix + rest).take(prefix.len() as int) =~= prefix);
    if has_prefix(s, prefix) {
        assert(s =~= s.take(prefix.len() as int) + s.skip(prefix.len() as int));
    }
}

/// All characters of a text are blanks.
pub open spec fn all_blank(s: Seq<char>) -> bool {
    forall|i: int| 0 <= i < s.len() ==> is_blank(#[trigger] s[i])
}

/// Leading blanks fall away.
proof fn trimmed_start_facts(a: Seq<char>, s: Seq<char>)
    requires
        all_blank(a),
        s.len() == 0 || !is_blank(s[0]),
    ensures
        trimmed_start(a + s) == s,
    decreases a.len(),
{
    if a.len() == 0 {
        assert(a + s =~= s);
    } else {
        assert((a + s)[0] == a[0]);
        assert((a + s).skip(1) =~= a.skip(1) + s);
        trimmed_start_facts(a.skip(1), s);
    }
}

/// Trailing blanks fall away.
proof fn trimmed_end_facts(s: Seq<char>, b: Seq<char>)
    requires
        all_blank(b),
        s.len() == 0 || !is_blank(s.last()),
    ensures
        trimmed_end(s + b) == s,
    decreases b.len(),
{
    if b.len() == 0 {
        assert(s + b =~= s);
    } else {
        assert((s + b).last() == b.last());
        assert((s + b).drop_last() =~= s + b.drop_last());
        trimmed_end_facts(s, b.drop_last());
    }
}

/// Blanks at the ends fall away and nothing else: a text that neither begins nor ends with a
/// blank comes out of any blanks that are put around it.
pub proof fn trim_law(a: Seq<char>, s: Seq<char>, b: Seq<char>)
    requires
        all_blank(a),
        all_blank(b),
        s.len() > 0 ==> !is_blank(s[0]) && !is_blank(s.last()),
    ensures
        trimmed(a + s + b) == s,
{
    if s.len() == 0 {
        let all = a + s + b;
        assert forall|i: int| 0 <= i < all.len() implies is_blank(#[trigger] all[i]) by {
            if i < a.len() {
                assert(all[i] == a[i]);
            } else {
                assert(all[i] == b[i - a.len()]);
            }
        }
        assert(all + s =~= all);
        trimmed_start_facts(all, s);
        assert(trimmed_end(s) =~= s);
    } else {
        assert(a + s + b =~= a + (s + b));
        trimmed_start_facts(a, s + b);
        trimmed_end_facts(s, b);
    }
}

/// The blanks of ASCII: the space, and the control characters from the tab to the carriage
/// return.
pub proof fn blank_law(c: char)
    requires
        c as int <= 127,
    ensures
        is_blank(c) <==> c == ' ' || c == '\t' || c == '\n' || c == '\u{b}' || c == '\u{c}' || c
            == '\r',
{
    let u = c as u32;
    assert(u == 9 ==> c == '\t');
    assert(u == 10 ==> c == '\n');
    assert(u == 11 ==> c == '\u{b}');
    assert(u == 12 ==> c == '\u{c}');
    assert(u == 13 ==> c == '\r');
    assert(u == 32 ==> c == ' ');
}

/// A first occurrence is where it is put.
proof fn first_position_facts(s: Seq<char>, c: char, rest: Seq<char>)
    requires
        !s.contains(c),
    ensures
        first_position(s, c) == s.len(),
        first_position(s.push(c) + rest, c) == s.len(),
    decreases s.len(),
{
    if s.len() > 0 {
        assert(s.contains(s[0]));
        assert(!s.skip(1).contains(c)) by {
            if s.skip(1).contains(c) {
                let i = choose|i: int| 0 <= i < s.skip(1).len() && s.skip(1)[i] == c;
                assert(s[i + 1] == c);
            }
        }
        first_position_facts(s.skip(1), c, rest);
        assert((s.push(c) + rest).skip(1) =~= s.skip(1).push(c) + rest);
    }
}

/// Lines. A line without a line feed in it, and without a carriage return at its end, is the
/// first line of any text in which it stands before a line feed, or before a carriage return
/// and a line feed; the further lines are those of the rest. A text without a line feed is
/// its own and only line, and an empty text has none.
pub proof fn lines_law(line: Seq<char>, rest: Seq<char>)
    requires
        !line.contains('\n'),
    ensures
        first_line_of(Seq::empty()) is None,
        lines_of(Seq::empty()).len() == 0,
        line.len() > 0 ==> first_line_of(line) == Some(line) && lines_of(line) == seq![line],
        line.len() == 0 || line.last() != '\r' ==> {
            &&& first_line_of(line.push('\n') + rest) == Some(line)
            &&& lines_of(line.push('\n') + rest) == seq![line] + lines_of(rest)
        },
        first_line_of(line.push('\r').push('\n') + rest) == Some(line),
        lines_of(line.push('\r').push('\n') + rest) == seq![line] + lines_of(rest),
{
    first_position_facts(line, '\n', rest);
    let fed = line.push('\n') + rest;
    assert(fed.take(line.len() as int) =~= line);
    assert(fed.skip(line.len() as int + 1) =~= rest);
    assert(line.len() > 0 ==> fed[line.len() - 1] == line.last());
    let returned = line.push('\r');
    assert(!returned.contains('\n')) by {
        if returned.contains('\n') {
            let i = choose|i: int| 0 <= i < returned.len() && returned[i] == '\n';
            assert(line[i] == '\n');
        }
    }
    first_position_facts(returned, '\n', rest);
    let both = returned.push('\n') + rest;
    assert(both[line.len() as int] == '\r');
    assert(both.take(line.len() as int) =~= line);
    assert(both.skip(line.len() as int + 2) =~= rest);
}

/// What follows the last separator: whatever stands behind one, as long as it holds no
/// further one; and all of a text without one.
pub proof fn after_last_law(a: Seq<char>, c: char, b: Seq<char>)
    requires
        !b.contains(c),
    ensures
        after_last(b, c) == b,
        after_last(a.push(c) + b, c) == b,
    decreases b.len(),
{
    if b.len() > 0 {
        let front = b.drop_last();
        assert(b.contains(b.last()));
        assert(!front.contains(c)) by {
            if front.contains(c) {
                let i = choose|i: int| 0 <= i < front.len() && front[i] == c;
                assert(b[i] == c);
            }
        }
        after_last_law(a, c, front);
        assert((a.push(c) + b).drop_last() =~= a.push(c) + front);
        assert(front.push(b.last()) =~= b);
    } else {
        assert(a.push(c) + b =~= a.push(c));
    }
}

/// The order of texts is that of a dictionary: of two texts that part after a common
/// beginning, the one with the smaller character there comes first, whatever follows; and a
/// text comes before every longer one that begins with it.
pub proof fn text_order_law(
    common: Seq<char>,
    x: char,
    y: char,
    a: Seq<char>,
    b: Seq<char>,
)
    ensures
        x != y ==> text_before(common.push(x) + a, common.push(y) + b) == ((x as int) < (y as int)),
        text_before(common, common.push(y) + b),
        !text_before(common.push(y) + b, common),
    decreases common.len(),
{
    if common.len() > 0 {
        let rest = common.skip(1);
        text_order_law(rest, x, y, a, b);
        assert((common.push(x) + a).skip(1) =~= rest.push(x) + a);
        assert((common.push(y) + b).skip(1) =~= rest.push(y) + b);
    }
}

/// Letters of ASCII change their case one by one, and nothing else changes.
pub proof fn ascii_case_law(s: Seq<char>, i: int)
    requires
        0 <= i < s.len(),
    ensures
        ascii_lowercase(s).len() == s.len(),
        ascii_uppercase(s).len() == s.len(),
        'A' <= s[i] <= 'Z' ==> ascii_lowercase(s)[i] as int == s[i] as int + 32,
        !('A' <= s[i] <= 'Z') ==> ascii_lowercase(s)[i] == s[i],
        'a' <= s[i] <= 'z' ==> ascii_uppercase(s)[i] as int == s[i] as int - 32,
        !('a' <= s[i] <= 'z') ==> ascii_uppercase(s)[i] == s[i],
{
}

/// The blanks outside of ASCII.
pub proof fn wide_blank_law(c: char)
    requires
        c as int > 127,
    ensures
        ({
            let others = seq![0x85int, 0xa0, 0x1680, 0x2028, 0x2029, 0x202f, 0x205f, 0x3000];
            is_blank(c) <==> others.contains(c as int) || 0x2000 <= c as int <= 0x200a
        }),
{
    let all = seq![0x85int, 0xa0, 0x1680, 0x2028, 0x2029, 0x202f, 0x205f, 0x3000];
    assert(all[0] == 0x85 && all[1] == 0xa0 && all[2] == 0x1680 && all[3] == 0x2028 && all[4]
        == 0x2029 && all[5] == 0x202f && all[6] == 0x205f && all[7] == 0x3000);
    if all.contains(c as int) {
        let i = choose|i: int| 0 <= i < all.len() && all[i] == c as int;
        assert(i == 0 || i == 1 || i == 2 || i == 3 || i == 4 || i == 5 || i == 6 || i == 7);
    }
}

/// The texts of strings are their own, one for each, in order; and so is that of a string that
/// may be missing.
pub proof fn views_law(strings: Seq<String>, i: int, s: &str)
    requires
        0 <= i < strings.len(),
    ensures
        views(strings).len() == strings.len(),
        views(strings)[i] == strings[i]@,
        str_view(Some(s)) == Some(s@),
        str_view(None) is None,
{
}

/// A number is written with a minus sign exactly where it is negative, and behind it as the
/// number without a sign.
pub proof fn sign_law(n: nat)
    ensures
        signed_decimal(n as int) == decimal(n),
        n > 0 ==> signed_decimal(-(n as int)) == seq!['-'] + decimal(n),
{
    reveal_strlit("-");
    assert("-"@ =~= seq!['-']);
}

} // verus!
