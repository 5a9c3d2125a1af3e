use vstd::prelude::*;

use crate::model::{Issue, Member, Milestone, SelectionKind};

verus! {

/// Relies on `String::push`: appends the character.
#[verifier::external_body]
fn push_char(s: &mut String, c: char)
    ensures
        final(s)@ == old(s)@.push(c),
{
    s.push(c)
}

/// Relies on `String::push_str`: appends the text.
#[verifier::external_body]
fn push_text(s: &mut String, t: &str)
    ensures
        final(s)@ == old(s)@ + t@,
{
    s.push_str(t)
}

/// The decimal digit for `d`, below ten.
pub open spec fn digit_char(d: nat) -> char {
    if d == 0 { '0' }
    else if d == 1 { '1' }
    else if d == 2 { '2' }
    else if d == 3 { '3' }
    else if d == 4 { '4' }
    else if d == 5 { '5' }
    else if d == 6 { '6' }
    else if d == 7 { '7' }
    else if d == 8 { '8' }
    else { '9' }
}

/// The decimal digits of `k`, without leading zeros.
pub open spec fn digits(k: nat) -> Seq<char>
    decreases k,
{
    if k < 10 {
        seq![digit_char(k)]
    } else {
        digits(k / 10).push(digit_char(k % 10))
    }
}

/// The decimal text of `n`, with a minus sign when it is negative.
pub open spec fn decimal(n: int) -> Seq<char> {
    if n < 0 {
        seq!['-'] + digits((-n) as nat)
    } else {
        digits(n as nat)
    }
}

fn digit_of(d: u32) -> (c: char)
    requires
        d < 10,
    ensures
        c == digit_char(d as nat),
{
    if d == 0 { '0' }
    else if d == 1 { '1' }
    else if d == 2 { '2' }
    else if d == 3 { '3' }
    else if d == 4 { '4' }
    else if d == 5 { '5' }
    else if d == 6 { '6' }
    else if d == 7 { '7' }
    else if d == 8 { '8' }
    else { '9' }
}

/// Appends the decimal text of `n`.
pub fn push_decimal(s: &mut String, n: i32)
    ensures
        final(s)@ == old(s)@ + decimal(n as int),
{
    if n < 0 {
        push_char(s, '-');
    }
    let mag: u32 = if n < 0 { (0i64 - n as i64) as u32 } else { n as u32 };
    let mut v: u32 = mag;
    let mut buf: Vec<char> = Vec::new();
    while v >= 10
        invariant
            digits(mag as nat) == digits(v as nat) + buf@,
        decreases v,
    {
        let ghost before = buf@;
        buf.insert(0, digit_of(v % 10));
        assert(digits(v as nat) == digits((v / 10) as nat).push(digit_char((v % 10) as nat)));
        assert(digits(v as nat) + before =~= digits((v / 10) as nat) + buf@);
        v = v / 10;
    }
    let ghost before = buf@;
    buf.insert(0, digit_of(v));
    assert(digits(mag as nat) =~= buf@);
    assert(n < 0 ==> mag as int == -n);
    assert(n >= 0 ==> mag as int == n);
    let ghost start = s@;
    let mut i: usize = 0;
    while i < buf.len()
        invariant
            i <= buf@.len(),
            s@ == start + buf@.subrange(0, i as int),
        decreases buf@.len() - i,
    {
        push_char(s, buf[i]);
        assert(buf@.subrange(0, i + 1) =~= buf@.subrange(0, i as int).push(buf@[i as int]));
        i = i + 1;
    }
    assert(buf@.subrange(0, buf@.len() as int) =~= buf@);
    assert(s@ =~= old(s)@ + decimal(n as int));
}

impl Issue {
    /// The text under which the issue is shown: `#<iid>: <title>`.
    pub open spec fn label_spec(&self) -> Seq<char> {
        seq!['#'] + decimal(self.iid as int) + seq![':', ' '] + self.title@
    }

    /// The text under which the issue is shown.
    pub fn label(&self) -> (r: String)
        ensures
            r@ == self.label_spec(),
    {
        let mut r = String::new();
        push_char(&mut r, '#');
        push_decimal(&mut r, self.iid);
        push_char(&mut r, ':');
        push_char(&mut r, ' ');
        push_text(&mut r, self.title.as_str());
        assert(r@ =~= self.label_spec());
        r
    }
}

impl Member {
    /// The text under which the member is shown: `<name> (<username>)`.
    pub open spec fn label_spec(&self) -> Seq<char> {
        self.name@ + seq![' ', '('] + self.username@ + seq![')']
    }

    /// The text under which the member is shown.
    pub fn label(&self) -> (r: String)
        ensures
            r@ == self.label_spec(),
    {
        let mut r = String::new();
        push_text(&mut r, self.name.as_str());
        push_char(&mut r, ' ');
        push_char(&mut r, '(');
        push_text(&mut r, self.username.as_str());
        push_char(&mut r, ')');
        assert(r@ =~= self.label_spec());
        r
    }
}

impl Milestone {
    /// The text under which the milestone is shown: `%<id>: <title>`.
    pub open spec fn label_spec(&self) -> Seq<char> {
        seq!['%'] + decimal(self.id as int) + seq![':', ' '] + self.title@
    }

    /// The text under which the milestone is shown.
    pub fn label(&self) -> (r: String)
        ensures
            r@ == self.label_spec(),
    {
        let mut r = String::new();
        push_char(&mut r, '%');
        push_decimal(&mut r, self.id);
        push_char(&mut r, ':');
        push_char(&mut r, ' ');
        push_text(&mut r, self.title.as_str());
        assert(r@ =~= self.label_spec());
        r
    }
}

impl SelectionKind {
    /// The name under which the way of selecting is offered.
    pub open spec fn label_spec(&self) -> Seq<char> {
        match self {
            SelectionKind::Milestone => seq!['M', 'i', 'l', 'e', 's', 't', 'o', 'n', 'e'],
            SelectionKind::Range => seq!['R', 'a', 'n', 'g', 'e'],
            SelectionKind::Manual => seq!['M', 'a', 'n', 'u', 'a', 'l'],
        }
    }

    /// The name under which the way of selecting is offered.
    pub fn label(&self) -> (r: String)
        ensures
            r@ == self.label_spec(),
    {
        let mut r = String::new();
        match self {
            SelectionKind::Milestone => {
                push_char(&mut r, 'M');
                push_char(&mut r, 'i');
                push_char(&mut r, 'l');
                push_char(&mut r, 'e');
                push_char(&mut r, 's');
                push_char(&mut r, 't');
                push_char(&mut r, 'o');
                push_char(&mut r, 'n');
                push_char(&mut r, 'e');
            },
            SelectionKind::Range => {
                push_char(&mut r, 'R');
                push_char(&mut r, 'a');
                push_char(&mut r, 'n');
                push_char(&mut r, 'g');
                push_char(&mut r, 'e');
            },
            SelectionKind::Manual => {
                push_char(&mut r, 'M');
                push_char(&mut r, 'a');
                push_char(&mut r, 'n');
                push_char(&mut r, 'u');
                push_char(&mut r, 'a');
                push_char(&mut r, 'l');
            },
        }
        assert(r@ =~= self.label_spec());
        r
    }
}

} // verus!
