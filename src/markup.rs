use std::rc::Rc;
use vstd::prelude::*;

verus! {

/// A node of the document tree that soup builds; opaque here.
#[verifier::external_type_specification]
#[verifier::external_body]
pub struct ExNode(html5ever::rcdom::Node);

/// What `str::trim` makes of a text: the text without leading and trailing white space.
pub uninterp spec fn trimmed_of(s: Seq<char>) -> Seq<char>;

/// Relies on `str::trim`: removes leading and trailing white space, so that
/// trimming the result again leaves it as it is.
#[verifier::external_body]
pub(crate) fn trim_text(s: &str) -> (r: String)
    ensures
        r@ == trimmed_of(s@),
        trimmed_of(r@) == r@,
{
    s.trim().to_string()
}

/// A query path is a sequence of steps: a class, and which of the matches of the
/// query for that class was taken.
///
/// How many nodes soup's class query for `class` yields, run on the node of the
/// document `html` that the queries of `path` reach (the document node for an
/// empty path).
pub uninterp spec fn class_count(html: Seq<char>, path: Seq<(Seq<char>, int)>, class: Seq<char>) -> nat;

/// The text that soup gives for the node of `html` that `path` reaches.
pub uninterp spec fn text_at(html: Seq<char>, path: Seq<(Seq<char>, int)>) -> Seq<char>;

/// The value of the attribute `name` that soup gives for the node of `html` that
/// `path` reaches.
pub uninterp spec fn attr_at(html: Seq<char>, path: Seq<(Seq<char>, int)>, name: Seq<char>) -> Option<
    Seq<char>,
>;

/// A node of a parsed document, with the markup it was parsed from and the
/// class queries that reached it.
pub struct MarkupNode {
    handle: Rc<html5ever::rcdom::Node>,
    html: Ghost<Seq<char>>,
    path: Ghost<Seq<(Seq<char>, int)>>,
}

impl MarkupNode {
    /// The markup whose document holds this node.
    pub closed spec fn html(&self) -> Seq<char> {
        self.html@
    }

    /// The class queries that lead from the document node to this node.
    pub closed spec fn path(&self) -> Seq<(Seq<char>, int)> {
        self.path@
    }
}

pub open spec fn opt_text(s: Option<String>) -> Option<Seq<char>> {
    match s {
        Some(t) => Some(t@),
        None => None,
    }
}

/// Relies on `soup::Soup::new`, which parses permissively and never fails, and on
/// `QueryBuilderExt::get_handle` for the document node.
#[verifier::external_body]
pub(crate) fn parse_document(html: &str) -> (r: MarkupNode)
    ensures
        r.html() == html@,
        r.path() == Seq::<(Seq<char>, int)>::empty(),
{
    let handle = soup::QueryBuilderExt::get_handle(&soup::Soup::new(html));
    MarkupNode { handle, html: Ghost(html@), path: Ghost(Seq::empty()) }
}

/// Relies on soup's `class(..).find_all()`: the nodes, `node` itself and its
/// descendants, whose class attribute holds `class`, in document order.
#[verifier::external_body]
pub(crate) fn find_all_with_class(node: &MarkupNode, class: &str) -> (r: Vec<MarkupNode>)
    ensures
        r@.len() == class_count(node.html(), node.path(), class@),
        forall|i: int|
            #![trigger r@[i]]
            0 <= i < r@.len() ==> r@[i].html() == node.html() && r@[i].path() == node.path().push(
                (class@, i),
            ),
{
    let mut out = Vec::new();
    for (i, h) in soup::QueryBuilderExt::class(&node.handle, class).find_all().enumerate() {
        let path = Ghost(node.path@.push((class@, i as int)));
        out.push(MarkupNode { handle: h, html: Ghost(node.html@), path });
    }
    out
}

/// Relies on soup's `class(..).find()`: the first of the nodes that
/// `class(..).find_all()` yields.
#[verifier::external_body]
pub(crate) fn find_with_class(node: &MarkupNode, class: &str) -> (r: Option<MarkupNode>)
    ensures
        r is Some <==> class_count(node.html(), node.path(), class@) > 0,
        r matches Some(n) ==> n.html() == node.html() && n.path() == node.path().push(
            (class@, 0),
        ),
{
    match soup::QueryBuilderExt::class(&node.handle, class).find() {
        Some(h) => Some(
            MarkupNode { handle: h, html: Ghost(node.html@), path: Ghost(node.path@.push((class@, 0))) },
        ),
        None => None,
    }
}

/// Relies on `soup::NodeExt::text`: the text of `node` and of its descendants.
#[verifier::external_body]
pub(crate) fn node_text(node: &MarkupNode) -> (r: String)
    ensures
        r@ == text_at(node.html(), node.path()),
{
    soup::NodeExt::text(&node.handle)
}

/// Relies on `soup::NodeExt::get`: the value of the attribute `name` of `node`.
#[verifier::external_body]
pub(crate) fn node_attr(node: &MarkupNode, name: &str) -> (r: Option<String>)
    ensures
        opt_text(r) == attr_at(node.html(), node.path(), name@),
{
    soup::NodeExt::get(&node.handle, name)
}

} // verus!
