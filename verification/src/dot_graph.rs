//! Attributes of a node or an edge of a query plan drawn in the DOT format.
use vstd::prelude::*;

use crate::util::owned;

verus! {

/// The strings joined with `sep` between each two of them.
pub open spec fn seq_join(items: Seq<Seq<char>>, sep: Seq<char>) -> Seq<char>
    decreases items.len(),
{
    if items.len() == 0 {
        Seq::empty()
    } else if items.len() == 1 {
        items[0]
    } else {
        seq_join(items.drop_last(), sep) + sep + items.last()
    }
}

pub open spec fn string_views(items: Seq<String>) -> Seq<Seq<char>> {
    items.map_values(|s: String| s@)
}

/// Calls `itertools::Itertools::join` on the strings. Its documentation
/// states that it combines all elements into one `String`, each written by
/// its `Display` implementation (for a string: itself) and separated by
/// `sep`; this is what the contract claims.
#[verifier::external_body]
fn join_strings(items: &Vec<String>, sep: &str) -> (r: String)
    ensures
        r@ == seq_join(string_views(items@), sep@),
{
    itertools::Itertools::join(&mut items.iter(), sep)
}

/// The attributes of a node or edge: a label and further attributes.
pub struct Attrs {
    label: String,
    others: Vec<String>,
}

/// Mathematical model of [`Attrs`].
pub struct AttrsView {
    pub label: Seq<char>,
    pub others: Seq<Seq<char>>,
}

impl View for Attrs {
    type V = AttrsView;

    closed spec fn view(&self) -> AttrsView {
        AttrsView { label: self.label@, others: string_views(self.others@) }
    }
}

/// How the attributes are written: `label = <l>` for an HTML label (one
/// that starts with `<`), `label = "<l>"` otherwise, then `, ` when there
/// are further attributes, then those attributes joined by `, `, then a
/// space.
pub open spec fn attrs_text(a: AttrsView) -> Seq<char> {
    let label = if a.label.len() > 0 && a.label[0] == '<' {
        "label = "@ + a.label
    } else {
        "label = \""@ + a.label + "\""@
    };
    let sep = if a.others.len() > 0 {
        ", "@
    } else {
        Seq::empty()
    };
    label + sep + seq_join(a.others, ", "@) + " "@
}

impl Attrs {
    /// Attributes with the given label and nothing else.
    pub fn new(label: String) -> (r: Attrs)
        ensures
            r@ == (AttrsView { label: label@, others: Seq::empty() }),
    {
        let r = Attrs { label, others: Vec::new() };
        assert(r@.others =~= Seq::<Seq<char>>::empty());
        r
    }

    /// The same attributes with the label written in bold (as an HTML label).
    pub fn bold(self) -> (r: Attrs)
        ensures
            r@ == (AttrsView { label: "<<b>"@ + self@.label + "</b>>"@, others: self@.others }),
    {
        let mut label = owned("<<b>");
        label.append(self.label.as_str());
        label.append("</b>>");
        Attrs { label, others: self.others }
    }

    /// The same attributes with one more attribute at the end.
    pub fn with(self, attr: String) -> (r: Attrs)
        ensures
            r@ == (AttrsView { label: self@.label, others: self@.others.push(attr@) }),
    {
        let mut others = self.others;
        let ghost old_others = others@;
        others.push(attr);
        let r = Attrs { label: self.label, others };
        assert(string_views(others@) =~= string_views(old_others).push(attr@));
        r
    }

    /// How the attributes are written in a DOT file (what `Display` writes).
    pub fn to_string(&self) -> (r: String)
        ensures
            r@ == attrs_text(self@),
    {
        let n = self.label.as_str().unicode_len();
        let mut s = if n > 0 && self.label.as_str().get_char(0) == '<' {
            let mut s = owned("label = ");
            s.append(self.label.as_str());
            s
        } else {
            let mut s = owned("label = \"");
            s.append(self.label.as_str());
            s.append("\"");
            s
        };
        if self.others.len() > 0 {
            s.append(", ");
        }
        let joined = join_strings(&self.others, ", ");
        s.append(joined.as_str());
        s.append(" ");
        s
    }
}

} // verus!
