//! Small operations on strings, stated over their views.

use vstd::prelude::*;

verus! {

/// The views of a sequence of strings.
pub open spec fn views(strings: Seq<String>) -> Seq<Seq<char>> {
    Seq::new(strings.len(), |i: int| strings[i]@)
}

/// The view of a string that may be missing.
pub open spec fn text_of(found: Option<String>) -> Option<Seq<char>> {
    match found {
        Some(text) => Some(text@),
        None => None,
    }
}

/// `p` is where `name` first occurs in `names`, or the length of `names` when it
/// does not occur.
pub open spec fn is_position(names: Seq<Seq<char>>, name: Seq<char>, p: int) -> bool {
    &&& 0 <= p <= names.len()
    &&& p < names.len() ==> names[p] == name
    &&& forall|k: int| 0 <= k < p ==> names[k] != name
}

/// Where `name` first occurs in `names`, or the length of `names` when it
/// does not occur.
pub open spec fn position_of(names: Seq<Seq<char>>, name: Seq<char>) -> int {
    choose|p: int| is_position(names, name, p)
}

/// There is one first occurrence, and `position_of` names it.
pub proof fn lemma_position(names: Seq<Seq<char>>, name: Seq<char>, p: int)
    requires
        is_position(names, name, p),
    ensures
        position_of(names, name) == p,
{
    let q = position_of(names, name);
    if q < p {
        assert(names[q] != name);
    }
    if p < q {
        assert(names[p] != name);
    }
}

/// `left` followed by `right`.
pub fn join(left: &str, right: &str) -> (joined: String)
    ensures
        joined@ == left@ + right@,
{
    String::from_str(left).concat(right)
}

/// `first`, `second` and `third` in a row.
pub fn join3(first: &str, second: &str, third: &str) -> (joined: String)
    ensures
        joined@ == first@ + second@ + third@,
{
    String::from_str(first).concat(second).concat(third)
}

/// Whether two strings hold the same characters.
pub fn same(left: &str, right: &str) -> (equal: bool)
    ensures
        equal == (left@ == right@),
{
    let n = left.unicode_len();
    if right.unicode_len() != n {
        return false;
    }
    let mut i: usize = 0;
    while i < n
        invariant
            n == left@.len(),
            n == right@.len(),
            i <= n,
            forall|k: int| 0 <= k < i ==> left@[k] == right@[k],
        decreases n - i,
    {
        if left.get_char(i) != right.get_char(i) {
            return false;
        }
        i = i + 1;
    }
    assert(left@ =~= right@);
    true
}

/// The views of a list of string slices.
pub open spec fn names(list: Seq<&str>) -> Seq<Seq<char>> {
    Seq::new(list.len(), |i: int| list[i]@)
}

/// Puts `text` at the end of `list`.
pub fn push_text(list: &mut Vec<String>, text: &str)
    ensures
        views(final(list)@) == views(old(list)@).push(text@),
{
    list.push(String::from_str(text));
    assert(views(list@) =~= views(old(list)@).push(text@));
}

/// Puts `first` and `second` at the end of `list`.
pub fn push_pair(list: &mut Vec<String>, first: &str, second: &str)
    ensures
        views(final(list)@) == views(old(list)@) + seq![first@, second@],
{
    push_text(list, first);
    push_text(list, second);
    assert(views(list@) =~= views(old(list)@) + seq![first@, second@]);
}

/// A list with nothing in it.
pub fn no_texts() -> (list: Vec<String>)
    ensures
        views(list@) == Seq::<Seq<char>>::empty(),
{
    let list: Vec<String> = Vec::new();
    assert(views(list@) =~= Seq::<Seq<char>>::empty());
    list
}

/// Puts the members of `more` at the end of `list`.
pub fn push_texts(list: &mut Vec<String>, more: &[&str])
    ensures
        views(final(list)@) == views(old(list)@) + names(more@),
{
    let n = more.len();
    let mut i: usize = 0;
    assert(views(list@) =~= views(old(list)@) + names(more@).take(0));
    while i < n
        invariant
            n == more@.len(),
            i <= n,
            views(list@) == views(old(list)@) + names(more@).take(i as int),
        decreases n - i,
    {
        let ghost before = views(list@);
        push_text(list, more[i]);
        assert(views(list@) =~= views(old(list)@) + names(more@).take(i + 1)) by {
            assert(names(more@).take(i + 1) =~= names(more@).take(i as int).push(more@[i as int]@));
        }
        i = i + 1;
    }
    assert(names(more@).take(n as int) =~= names(more@));
}

/// Puts the members of `more` at the end of `list`.
pub fn append_texts(list: &mut Vec<String>, more: Vec<String>)
    ensures
        views(final(list)@) == views(old(list)@) + views(more@),
{
    let mut more = more;
    let ghost added = more@;
    list.append(&mut more);
    assert(views(list@) =~= views(old(list)@) + views(added));
}

/// The characters of `text`, one by one.
pub fn chars_of(text: &str) -> (chars: Vec<char>)
    ensures
        chars@ == text@,
{
    broadcast use vstd::string::group_string_axioms;

    let mut chars: Vec<char> = Vec::new();
    for c in it: text.chars()
        invariant
            it.seq() == text@,
            chars@ == it.seq().take(it.index()),
    {
        chars.push(c);
        assert(it.seq().take(it.index() + 1) =~= it.seq().take(it.index()).push(c));
    }
    assert(text@.take(text@.len() as int) =~= text@);
    chars
}

/// The decimal digit `d` as a character.
pub open spec fn digit_char(d: nat) -> char {
    if d == 0 {
        '0'
    } else if d == 1 {
        '1'
    } else if d == 2 {
        '2'
    } else if d == 3 {
        '3'
    } else if d == 4 {
        '4'
    } else if d == 5 {
        '5'
    } else if d == 6 {
        '6'
    } else if d == 7 {
        '7'
    } else if d == 8 {
        '8'
    } else {
        '9'
    }
}

/// `n` written in decimal, without leading zeros.
pub open spec fn decimal(n: nat) -> Seq<char>
    decreases n,
{
    if n < 10 {
        seq![digit_char(n)]
    } else {
        decimal(n / 10).push(digit_char(n % 10))
    }
}

/// One decimal digit as text.
pub fn digit_text(d: u64) -> (text: &'static str)
    requires
        d < 10,
    ensures
        text@ == seq![digit_char(d as nat)],
{
    proof {
        reveal_strlit("0");
        reveal_strlit("1");
        reveal_strlit("2");
        reveal_strlit("3");
        reveal_strlit("4");
        reveal_strlit("5");
        reveal_strlit("6");
        reveal_strlit("7");
        reveal_strlit("8");
        reveal_strlit("9");
    }
    let text = if d == 0 {
        "0"
    } else if d == 1 {
        "1"
    } else if d == 2 {
        "2"
    } else if d == 3 {
        "3"
    } else if d == 4 {
        "4"
    } else if d == 5 {
        "5"
    } else if d == 6 {
        "6"
    } else if d == 7 {
        "7"
    } else if d == 8 {
        "8"
    } else {
        "9"
    };
    assert(text@ =~= seq![digit_char(d as nat)]);
    text
}

/// Writes `n` in decimal.
pub fn decimal_text(n: u64) -> (text: String)
    ensures
        text@ == decimal(n as nat),
    decreases n,
{
    if n < 10 {
        String::from_str(digit_text(n))
    } else {
        let head = decimal_text(n / 10);
        let last = digit_text(n % 10);
        let text = head.concat(last);
        assert(text@ =~= decimal((n / 10) as nat).push(digit_char((n % 10) as nat)));
        text
    }
}

} // verus!
