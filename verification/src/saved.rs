//! The two lists of names that the operator keeps: obvious and borderline.

use vstd::prelude::*;
use vstd::string::*;

verus! {

/// Whether a name is on the two lists.
#[derive(Clone, Copy, Debug, PartialEq, Eq, Structural)]
pub struct Marks {
    pub obvious: bool,
    pub borderline: bool,
}

/// Which of the two buttons of a name was pressed.
#[derive(Clone, Copy, Debug, PartialEq, Eq, Structural)]
pub struct Clicks {
    pub obvious: bool,
    pub borderline: bool,
}

/// The lists that a name is on after its buttons were pressed. Pressing the
/// button of a list that the name is on takes it off both lists; pressing the
/// button of a list that it is not on puts it on that list alone. With both
/// pressed at once, "obvious" goes first.
pub open spec fn spec_toggle(marks: Marks, clicks: Clicks) -> Marks {
    let obvious_left = marks.obvious && !(clicks.borderline || (clicks.obvious && marks.obvious));
    let borderline_left = marks.borderline && !(clicks.obvious || (clicks.borderline
        && marks.borderline));
    if clicks.obvious && !marks.obvious {
        Marks { obvious: true, borderline: borderline_left }
    } else if clicks.borderline && !marks.borderline {
        Marks { obvious: obvious_left, borderline: true }
    } else {
        Marks { obvious: obvious_left, borderline: borderline_left }
    }
}

/// Works out the lists that a name is on after its buttons were pressed.
pub fn toggle(marks: Marks, clicks: Clicks) -> (r: Marks)
    ensures
        r == spec_toggle(marks, clicks),
        !clicks.obvious && !clicks.borderline ==> r == marks,
        !(marks.obvious && marks.borderline) ==> !(r.obvious && r.borderline),
{
    let mut obvious = marks.obvious;
    let mut borderline = marks.borderline;
    if clicks.borderline || (clicks.obvious && marks.obvious) {
        obvious = false;
    }
    if clicks.obvious || (clicks.borderline && marks.borderline) {
        borderline = false;
    }
    if clicks.obvious && !marks.obvious {
        obvious = true;
    } else if clicks.borderline && !marks.borderline {
        borderline = true;
    }
    Marks { obvious, borderline }
}

/// The text of a list of names: each name behind a slash, one to a line.
pub open spec fn list_text(names: Seq<Seq<char>>) -> Seq<char>
    decreases names.len(),
{
    if names.len() == 0 {
        Seq::empty()
    } else if names.len() == 1 {
        seq!['/'] + names[0]
    } else {
        list_text(names.drop_last()) + seq!['\n', '/'] + names.last()
    }
}

/// The texts of a list of names, in order.
pub open spec fn name_texts(names: Seq<String>) -> Seq<Seq<char>> {
    names.map_values(|s: String| s@)
}

/// Writes a list of names as text to copy: each name behind a slash, one to
/// a line.
pub fn copy_text(names: &Vec<String>) -> (text: String)
    ensures
        text@ == list_text(name_texts(names@)),
{
    let ghost all = name_texts(names@);
    let mut text = String::new();
    let mut i: usize = 0;
    proof {
        reveal_strlit("/");
        reveal_strlit("\n/");
    }
    while i < names.len()
        invariant
            i <= names.len(),
            all == name_texts(names@),
            "/"@ == seq!['/'],
            "\n/"@ == seq!['\n', '/'],
            text@ == list_text(all.subrange(0, i as int)),
        decreases names.len() - i,
    {
        let ghost before = text@;
        proof {
            let next = all.subrange(0, i + 1);
            assert(next.drop_last() =~= all.subrange(0, i as int));
            assert(next.last() == names[i as int]@);
            assert(next[0] == names[0]@);
        }
        if i == 0 {
            text.append("/");
            assert(before =~= Seq::<char>::empty());
            assert(Seq::<char>::empty() + seq!['/'] =~= seq!['/']);
        } else {
            text.append("\n/");
        }
        text.append(names[i].as_str());
        i += 1;
    }
    assert(all.subrange(0, names.len() as int) =~= all);
    text
}

} // verus!
