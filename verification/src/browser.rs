//! Finding a Chromium-family browser among the commands that are known to
//! start one. Whether a command is installed is asked of the caller.

use crate::error::{message_of, Error, ErrorView};
use vstd::prelude::*;

verus! {

/// The commands that start a Chromium-family browser, in order of preference.
pub open spec fn candidates() -> Seq<Seq<char>> {
    seq![
        "brave-browser"@,
        "brave-browser-stable"@,
        "brave-browser-nightly"@,
        "google-chrome"@,
        "google-chrome-stable"@,
        "chromium"@,
        "chromium-browser"@,
        "vivaldi"@,
        "opera"@,
        "microsoft-edge"@,
    ]
}

/// The texts of a list of commands, in order.
pub open spec fn names_view(names: Seq<&'static str>) -> Seq<Seq<char>> {
    names.map_values(|n: &'static str| n@)
}

/// The texts of a list of strings, in order.
pub open spec fn strings_view(names: Seq<String>) -> Seq<Seq<char>> {
    names.map_values(|n: String| n@)
}

/// `probe`, asked about the command `name`, gave `answer`.
pub open spec fn answered<F: Fn(&str) -> bool>(probe: F, name: Seq<char>, answer: bool) -> bool {
    exists|c: &str| c@ == name && probe.ensures((c,), answer)
}

/// The commands that start a Chromium-family browser, in order of preference.
pub fn browser_candidates() -> (r: Vec<&'static str>)
    ensures
        names_view(r@) == candidates(),
{
    let mut v: Vec<&'static str> = Vec::new();
    v.push("brave-browser");
    v.push("brave-browser-stable");
    v.push("brave-browser-nightly");
    v.push("google-chrome");
    v.push("google-chrome-stable");
    v.push("chromium");
    v.push("chromium-browser");
    v.push("vivaldi");
    v.push("opera");
    v.push("microsoft-edge");
    assert(names_view(v@) =~= candidates());
    v
}

/// The first candidate that `command_exists` reports as installed. Each
/// candidate is asked about in turn, and none after the first that is
/// there. With none installed, the error says so.
pub fn detect_chromium_browser<F: Fn(&str) -> bool>(command_exists: F) -> (r: Result<String, String>)
    requires
        forall|c: &str| command_exists.requires((c,)),
    ensures
        match r {
            Ok(browser) => exists|i: int|
                {
                    &&& 0 <= i < candidates().len()
                    &&& browser@ == #[trigger] candidates()[i]
                    &&& answered(command_exists, candidates()[i], true)
                    &&& forall|j: int|
                        0 <= j < i ==> answered(command_exists, #[trigger] candidates()[j], false)
                },
            Err(m) => {
                &&& m@ == message_of(ErrorView::NoBrowser)
                &&& forall|j: int|
                    0 <= j < candidates().len() ==> answered(
                        command_exists,
                        #[trigger] candidates()[j],
                        false,
                    )
            },
        },
{
    let names = browser_candidates();
    let mut i: usize = 0;
    while i < names.len()
        invariant
            i <= names.len(),
            names_view(names@) == candidates(),
            forall|c: &str| command_exists.requires((c,)),
            forall|j: int| 0 <= j < i ==> answered(command_exists, #[trigger] candidates()[j], false),
        decreases names.len() - i,
    {
        let name: &str = names[i];
        assert(candidates()[i as int] == name@) by {
            assert(names_view(names@)[i as int] == names@[i as int]@);
        }
        if command_exists(name) {
            assert(answered(command_exists, candidates()[i as int], true));
            return Ok(name.to_owned());
        }
        assert(answered(command_exists, candidates()[i as int], false));
        i += 1;
    }
    Err(Error::NoBrowser.message())
}

/// Every candidate that `command_exists` reports as installed, in order of
/// preference. Each candidate is asked about once.
pub fn detect_chromium_browsers<F: Fn(&str) -> bool>(command_exists: F) -> (r: Vec<String>)
    requires
        forall|c: &str| command_exists.requires((c,)),
    ensures
        exists|answers: Seq<bool>|
            {
                &&& answers.len() == candidates().len()
                &&& forall|j: int|
                    0 <= j < candidates().len() ==> answered(
                        command_exists,
                        #[trigger] candidates()[j],
                        answers[j],
                    )
                &&& strings_view(r@) == kept(candidates(), answers)
            },
{
    let names = browser_candidates();
    let mut out: Vec<String> = Vec::new();
    let ghost mut answers: Seq<bool> = Seq::empty();
    let mut i: usize = 0;
    assert(strings_view(out@) =~= kept(candidates().take(0), answers));
    while i < names.len()
        invariant
            i <= names.len(),
            names_view(names@) == candidates(),
            forall|c: &str| command_exists.requires((c,)),
            answers.len() == i,
            forall|j: int|
                0 <= j < i ==> answered(command_exists, #[trigger] candidates()[j], answers[j]),
            strings_view(out@) == kept(candidates().take(i as int), answers),
        decreases names.len() - i,
    {
        let name: &str = names[i];
        assert(candidates()[i as int] == name@) by {
            assert(names_view(names@)[i as int] == names@[i as int]@);
        }
        let there = command_exists(name);
        assert(answered(command_exists, candidates()[i as int], there));
        let ghost before = strings_view(out@);
        let ghost old_answers = answers;
        proof {
            answers = answers.push(there);
            let next = candidates().take(i + 1);
            assert(next.drop_last() =~= candidates().take(i as int));
            assert(answers.drop_last() =~= old_answers);
        }
        if there {
            let owned = name.to_owned();
            out.push(owned);
            assert(strings_view(out@) =~= before.push(name@));
        }
        i += 1;
    }
    assert(candidates().take(i as int) =~= candidates());
    out
}

/// The names that got the answer yes, in order.
pub open spec fn kept(names: Seq<Seq<char>>, answers: Seq<bool>) -> Seq<Seq<char>>
    decreases names.len(),
{
    if names.len() == 0 || answers.len() != names.len() {
        Seq::empty()
    } else {
        let before = kept(names.drop_last(), answers.drop_last());
        if answers.last() {
            before.push(names.last())
        } else {
            before
        }
    }
}

} // verus!
