use vstd::prelude::*;

verus! {

/// The externally owned outline tree that ancestor handles point into.
#[verifier::external_type_specification]
#[verifier::external_body]
pub struct ExOrg<'a>(orgize::Org<'a>);

/// A non-owning handle to a headline node of the outline tree.
#[verifier::external_type_specification]
#[verifier::external_body]
pub struct ExHeadline(orgize::Headline);

/// Relies on orgize's `Org::arena`, `Headline::title_node`, indextree's
/// `Arena::get` and `Node::get`, and the `raw` field of orgize's `Title`:
/// looks the handle's title node up in the tree's arena and hands back its
/// raw title text, or `None` when the handle does not resolve to a title
/// node of this tree. The safe arena lookup never panics, so nothing is
/// promised of which handles resolve.
#[verifier::external_body]
pub(crate) fn headline_title(org: &orgize::Org, headline: &orgize::Headline) -> (r: Option<String>)
{
    match org.arena().get(headline.title_node()).map(|node| node.get()) {
        Some(orgize::Element::Title(title)) => Some(title.raw.clone().into_owned()),
        _ => None,
    }
}

} // verus!
