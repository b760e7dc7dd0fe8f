//! What the two backends share: the ways a backend can fail, and the colour
//! of the border of the focused window.

use crate::text::strings_view;
use rand::seq::IteratorRandom;
use vstd::prelude::*;
use vstd::string::StringExecFns;

verus! {

/// How a backend can fail.
#[derive(Clone, Copy, Debug, PartialEq, Eq, Structural)]
pub enum AdapterError {
    /// The call to the compositor's socket failed.
    Ipc,
    /// What the compositor holds as its layouts cannot be read as a list of
    /// distinct layouts.
    Malformed,
    /// A layout, or a step of a path, is not there.
    NotFound,
    /// The compositor's command line tool reported a failure.
    CliFailure,
}

/// The colours a border can take, as six hexadecimal digits each.
pub open spec fn spec_colors() -> Seq<Seq<char>> {
    seq!["7aa2f7"@, "9ece6a"@, "e0af68"@, "bb9af7"@, "7dcfff"@, "c0caf5"@]
}

/// The colour of a border of which nothing else is known.
pub open spec fn spec_default_color() -> Seq<char> {
    "7aa2f7"@
}

/// The colours of [`spec_colors`] other than `current`, in order.
pub open spec fn spec_other_colors(current: Seq<char>) -> Seq<Seq<char>> {
    spec_colors().filter(|c: Seq<char>| c != current)
}

/// The colours a border can take.
pub fn colors() -> (res: Vec<String>)
    ensures
        strings_view(res@) == spec_colors(),
{
    let mut res: Vec<String> = Vec::new();
    res.push(String::from_str("7aa2f7"));
    res.push(String::from_str("9ece6a"));
    res.push(String::from_str("e0af68"));
    res.push(String::from_str("bb9af7"));
    res.push(String::from_str("7dcfff"));
    res.push(String::from_str("c0caf5"));
    proof {
        assert(strings_view(res@) =~= spec_colors());
    }
    res
}

/// The colour of a border of which nothing else is known.
pub fn default_color() -> (res: String)
    ensures
        res@ == spec_default_color(),
{
    String::from_str("7aa2f7")
}

/// One number below `n`, picked at random by `rand`'s
/// `IteratorRandom::choose` on the range from 0 to `n`. It gives a number
/// exactly when the range is not empty; which number is not known.
#[verifier::external_body]
fn choose_below(n: usize) -> (res: Option<usize>)
    ensures
        res is None <==> n == 0,
        res matches Some(i) ==> i < n,
{
    (0..n).choose(&mut rand::thread_rng())
}

/// The colours other than `current`, in the order of [`colors`].
pub fn other_colors(current: &String) -> (res: Vec<String>)
    ensures
        strings_view(res@) == spec_other_colors(current@),
        res@.len() >= 1,
{
    let all = colors();
    let ghost views = strings_view(all@);
    let ghost differs = |c: Seq<char>| c != current@;
    let mut res: Vec<String> = Vec::new();
    let mut i: usize = 0;
    proof {
        reveal(Seq::filter);
        assert(views.take(0) =~= Seq::<Seq<char>>::empty());
        assert(strings_view(res@) =~= Seq::<Seq<char>>::empty());
    }
    while i < all.len()
        invariant
            i <= all@.len(),
            views == strings_view(all@),
            views == spec_colors(),
            differs == (|c: Seq<char>| c != current@),
            strings_view(res@) == views.take(i as int).filter(differs),
        decreases all@.len() - i,
    {
        let ghost before = strings_view(res@);
        proof {
            assert(views.take(i + 1) =~= views.take(i as int).push(views[i as int]));
            Seq::lemma_filter_push(views.take(i as int), views[i as int], differs);
        }
        if all[i] != *current {
            res.push(all[i].clone());
            proof {
                assert(strings_view(res@) =~= before.push(views[i as int]));
            }
        }
        i += 1;
    }
    proof {
        assert(views.take(all@.len() as int) =~= views);
        lemma_two_colors_differ();
        let k = if views[0] != current@ {
            0int
        } else {
            1int
        };
        assert(differs(views[k]));
        Seq::lemma_filter_contains(views, differs, k);
    }
    res
}

/// The first two colours are not the same, so whatever the current colour
/// is, another one is left.
pub proof fn lemma_two_colors_differ()
    ensures
        spec_colors()[0] != spec_colors()[1],
{
    reveal_strlit("7aa2f7");
    reveal_strlit("9ece6a");
    assert("7aa2f7"@[0] == '7');
    assert("9ece6a"@[0] == '9');
}

/// The colour that stands at place `pick` among the colours other than
/// `current`; the default colour where `pick` is no such place.
pub fn pick_color(current: &String, pick: Option<usize>) -> (res: String)
    ensures
        match pick {
            Some(i) if i < spec_other_colors(current@).len() => res@ == spec_other_colors(
                current@,
            )[i as int],
            _ => res@ == spec_default_color(),
        },
{
    let others = other_colors(current);
    match pick {
        Some(i) => {
            if i < others.len() {
                others[i].clone()
            } else {
                default_color()
            }
        },
        None => default_color(),
    }
}

/// A colour for the border, picked at random among those that are not `current`.
pub fn rand_color(current: &String) -> (res: String)
    ensures
        spec_colors().contains(res@),
        res@ != current@,
{
    let others = other_colors(current);
    let pick = choose_below(others.len());
    let res = pick_color(current, pick);
    proof {
        let differs = |c: Seq<char>| c != current@;
        let i = pick->Some_0 as int;
        Seq::lemma_filter_pred(spec_colors(), differs, i);
        assert(spec_other_colors(current@).contains(res@));
        Seq::lemma_filter_contains_rev(spec_colors(), differs, res@);
    }
    res
}

} // verus!
