//! Lines of terminal output as plain data: each line is a list of pieces of
//! text, each painted in one colour.  The program prints them; the library
//! decides what they say.
use vstd::prelude::*;
use crate::text::views;

verus! {

/// The colour a piece of output is printed in.
#[derive(Clone, Copy, PartialEq, Eq, Structural, Debug)]
pub enum Paint {
    Plain,
    Green,
    Red,
    Yellow,
}

/// A piece of a line of output.
#[derive(Debug)]
pub struct Piece {
    pub text: String,
    pub paint: Paint,
}

impl View for Piece {
    type V = (Seq<char>, Paint);

    open spec fn view(&self) -> (Seq<char>, Paint) {
        (self.text@, self.paint)
    }
}

/// The view of one line of output.
pub open spec fn line_view(l: Seq<Piece>) -> Seq<(Seq<char>, Paint)> {
    l.map_values(|p: Piece| p@)
}

/// The views of lines of output.
pub open spec fn out_view(ls: Seq<Vec<Piece>>) -> Seq<Seq<(Seq<char>, Paint)>> {
    ls.map_values(|l: Vec<Piece>| line_view(l@))
}

/// The line `lead` (plain) followed by `name` in `paint`.
pub open spec fn entry(lead: Seq<char>, name: Seq<char>, paint: Paint) -> Seq<(Seq<char>, Paint)> {
    seq![(lead, Paint::Plain), (name, paint)]
}

/// One `entry` line for each of `names`.
pub open spec fn entries(lead: Seq<char>, names: Seq<Seq<char>>, paint: Paint) -> Seq<
    Seq<(Seq<char>, Paint)>,
> {
    names.map_values(|n: Seq<char>| entry(lead, n, paint))
}

/// The line that holds only `text`, plain.
pub open spec fn plain_line(text: Seq<char>) -> Seq<(Seq<char>, Paint)> {
    seq![(text, Paint::Plain)]
}

/// The line made of `lead` (plain) and `name` in `paint`.
pub fn entry_line(lead: &str, name: String, paint: Paint) -> (res: Vec<Piece>)
    ensures
        line_view(res@) == entry(lead@, name@, paint),
{
    let mut res: Vec<Piece> = Vec::new();
    res.push(Piece { text: lead.to_owned(), paint: Paint::Plain });
    res.push(Piece { text: name, paint });
    assert(line_view(res@) == entry(lead@, name@, paint));
    res
}

/// The line that holds only `text`.
pub fn text_line(text: &str) -> (res: Vec<Piece>)
    ensures
        line_view(res@) == plain_line(text@),
{
    let mut res: Vec<Piece> = Vec::new();
    res.push(Piece { text: text.to_owned(), paint: Paint::Plain });
    assert(line_view(res@) == plain_line(text@));
    res
}

/// Appends the line `text` to `out`.
pub fn push_text_line(out: &mut Vec<Vec<Piece>>, text: &str)
    ensures
        out_view(final(out)@) == out_view(old(out)@).push(plain_line(text@)),
{
    let l = text_line(text);
    out.push(l);
    assert(out_view(out@) == out_view(old(out)@).push(plain_line(text@)));
}

/// Appends one `entry(lead, name, paint)` line to `out` for each of `names`.
pub fn push_entries(out: &mut Vec<Vec<Piece>>, lead: &str, names: &Vec<String>, paint: Paint)
    ensures
        out_view(final(out)@) == out_view(old(out)@) + entries(lead@, views(names@), paint),
{
    let mut i: usize = 0;
    while i < names.len()
        invariant
            i <= names.len(),
            out_view(out@) == out_view(old(out)@) + entries(lead@, views(names@).take(i as int), paint),
        decreases names.len() - i,
    {
        let l = entry_line(lead, names[i].clone(), paint);
        proof {
            let e = entries(lead@, views(names@).take(i as int), paint);
            assert(entries(lead@, views(names@).take(i + 1), paint) == e.push(line_view(l@)));
            assert(out_view(out@.push(l)) == out_view(out@).push(line_view(l@)));
        }
        out.push(l);
        i = i + 1;
    }
    assert(views(names@).take(names.len() as int) == views(names@));
}

} // verus!
