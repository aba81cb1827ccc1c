//! Keeps the surfaces in place when the screens change.
use vstd::prelude::*;

use crate::text;

verus! {

/// The position of the first screen of this name.
pub open spec fn screen_of(screens: Seq<Seq<char>>, name: Seq<char>) -> Option<usize>
    decreases screens.len(),
{
    if screens.len() == 0 {
        None
    } else {
        match screen_of(screens.drop_last(), name) {
            Some(i) => Some(i),
            None => if screens.last() == name {
                Some((screens.len() - 1) as usize)
            } else {
                None
            },
        }
    }
}

/// The position of the first screen of this name.
fn find_screen(screens: &Vec<String>, name: &str) -> (r: Option<usize>)
    ensures
        r == screen_of(text::views(screens@), name@),
{
    let ghost texts = text::views(screens@);
    let mut found: Option<usize> = None;
    let mut i: usize = 0;
    assert(texts.take(0) =~= Seq::empty());
    while i < screens.len()
        invariant
            i <= screens@.len(),
            texts == text::views(screens@),
            found == screen_of(texts.take(i as int), name@),
        decreases screens@.len() - i,
    {
        assert(texts.take(i + 1).drop_last() =~= texts.take(i as int));
        if found.is_none() && text::same_text(screens[i].as_str(), name) {
            found = Some(i);
        }
        i = i + 1;
    }
    assert(texts.take(i as int) =~= texts);
    found
}

/// The screen that each surface goes to, by the names of both: the first screen of the
/// surface's name. A surface without such a screen stays where it is.
pub fn reapply(surfaces: &Vec<String>, screens: &Vec<String>) -> (r: Vec<Option<usize>>)
    ensures
        r@ == text::views(surfaces@).map_values(
            |name: Seq<char>| screen_of(text::views(screens@), name),
        ),
{
    let ghost want = text::views(surfaces@).map_values(
        |name: Seq<char>| screen_of(text::views(screens@), name),
    );
    let mut r: Vec<Option<usize>> = Vec::new();
    let mut i: usize = 0;
    while i < surfaces.len()
        invariant
            i <= surfaces@.len(),
            want == text::views(surfaces@).map_values(
                |name: Seq<char>| screen_of(text::views(screens@), name),
            ),
            r@ == want.take(i as int),
        decreases surfaces@.len() - i,
    {
        r.push(find_screen(screens, surfaces[i].as_str()));
        assert(r@ =~= want.take(i + 1));
        i = i + 1;
    }
    assert(want.take(i as int) =~= want);
    r
}

/// A surface goes to a screen of its own name wherever there is one.
pub proof fn reapply_law(screens: Seq<Seq<char>>, name: Seq<char>)
    requires
        screens.len() <= usize::MAX,
    ensures
        screens.contains(name) <==> screen_of(screens, name) is Some,
        screen_of(screens, name) matches Some(i) ==> i < screens.len() && screens[i as int] == name
            && forall|j: int| 0 <= j < i ==> screens[j] != name,
    decreases screens.len(),
{
    if screens.len() > 0 {
        let front = screens.drop_last();
        reapply_law(front, name);
        assert forall|j: int| 0 <= j < front.len() implies front[j] == screens[j] by {}
        if screens.contains(name) {
            let j = choose|j: int| 0 <= j < screens.len() && screens[j] == name;
            if j < front.len() {
                assert(front[j] == name);
            }
        }
        if screens.last() == name {
            assert(screens[screens.len() - 1] == name);
        }
        match screen_of(front, name) {
            Some(i) => {
                assert(screens[i as int] == name);
            },
            None => {
                assert forall|j: int| 0 <= j < screens.len() - 1 implies screens[j] != name by {
                    if screens[j] == name {
                        assert(front[j] == name);
                    }
                }
            },
        }
    }
}

/// Each surface gets an answer of its own, in order: a screen of its name, or that it stays.
pub proof fn reapply_all_law(
    surfaces: Vec<String>,
    screens: Vec<String>,
    r: Vec<Option<usize>>,
    i: int,
)
    requires
        call_ensures(reapply, (&surfaces, &screens), r),
        0 <= i < surfaces@.len(),
    ensures
        r@.len() == surfaces@.len(),
        r@[i] matches Some(at) ==> at < screens@.len() && screens@[at as int]@ == surfaces@[i]@,
        r@[i] is None ==> forall|j: int|
            0 <= j < screens@.len() ==> (#[trigger] screens@[j])@ != surfaces@[i]@,
{
    let texts = text::views(screens@);
    let name = surfaces@[i]@;
    assert(screens.len() == screens@.len());
    reapply_law(texts, name);
    assert(text::views(surfaces@)[i] == name);
    assert(r@[i] == screen_of(texts, name));
    if r@[i] is None {
        assert forall|j: int| 0 <= j < screens@.len() implies (#[trigger] screens@[j])@ != name by {
            if screens@[j]@ == name {
                assert(texts[j] == name);
            }
        }
    }
}

} // verus!
