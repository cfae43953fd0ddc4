//! TOML documents: what stands in them, and how they are laid out.
use toml_edit::Document;
use vstd::prelude::*;

verus! {

/// A TOML document as `toml_edit` holds it, with its comments and its layout.
#[verifier::external_type_specification]
#[verifier::external_body]
pub struct ExDocument(toml_edit::Document);

/// A value in a document.
pub enum Node {
    Text(Seq<char>),
    Flag(bool),
    Integer(int),
    /// A number with a fraction or an exponent, as the bits that stand for it.
    Fractional { bits: u64 },
    /// A date, a time or both, written out.
    Date(Seq<char>),
    /// An array, or an array of tables.
    Array(Seq<Node>),
    /// A table, in whichever of its forms.
    Table(Tree),
}

/// The entries of a table by key.
pub type Tree = Map<Seq<char>, Node>;

/// A section of a document and a key in it.
pub type Place = (Seq<char>, Seq<char>);

/// A part of the text of a document.
pub enum Piece {
    /// Keys, headers, comments, white space, and values that are no texts or booleans in a section.
    Words(Seq<char>),
    /// The value in a key of a section, a text or a boolean, with the white space and the comment
    /// around it.
    Slot { section: Seq<char>, key: Seq<char>, written: Seq<char> },
}

/// What a document holds: its entries, and the parts of its text in their order.
#[verifier::ext_equal]
pub struct Contents {
    pub tree: Tree,
    pub layout: Seq<Piece>,
}

/// What a document holds.
pub uninterp spec fn document_contents(document: Document) -> Contents;

/// Whether the layout of a document is as the parser left it, apart from values set since.
pub uninterp spec fn keeps_parsed_layout(document: Document) -> bool;

/// What parsing a TOML text gives: a document, or the words in which the parser refuses the text.
pub uninterp spec fn parsed_contents(source: Seq<char>) -> Result<Contents, Seq<char>>;

/// Whether `source` is a TOML text with these entries.
pub open spec fn reads_as(source: Seq<char>, tree: Tree) -> bool {
    parsed_contents(source) matches Ok(found) && found.tree == tree
}

/// The value in `key` of `section`, where there is one.
pub open spec fn node_at(tree: Tree, section: Seq<char>, key: Seq<char>) -> Option<Node> {
    if tree.dom().contains(section) && tree[section] is Table
        && tree[section]->Table_0.dom().contains(key) {
        Some(tree[section]->Table_0[key])
    } else {
        None
    }
}

/// Whether there is a text or a boolean in `key` of `section`.
pub open spec fn has_field(tree: Tree, section: Seq<char>, key: Seq<char>) -> bool {
    node_at(tree, section, key) matches Some(node) && (node is Text || node is Flag)
}

/// The entries with another value in `key` of `section`.
pub open spec fn with_node(tree: Tree, section: Seq<char>, key: Seq<char>, node: Node) -> Tree {
    tree.insert(section, Node::Table(tree[section]->Table_0.insert(key, node)))
}

/// Whether two tables at the top of a document differ only in these places.
pub open spec fn section_changed_only(
    section: Seq<char>,
    before: Node,
    after: Node,
    places: Set<Place>,
) -> bool {
    before == after || {
        &&& before is Table
        &&& after is Table
        &&& before->Table_0.dom() == after->Table_0.dom()
        &&& forall|key: Seq<char>|
            #![trigger after->Table_0[key]]
            before->Table_0.dom().contains(key) ==> before->Table_0[key] == after->Table_0[key]
                || places.contains((section, key))
    }
}

/// Whether two documents have the same entries, of every type and at every depth, but for the
/// values in these places.
pub open spec fn changed_only(before: Tree, after: Tree, places: Set<Place>) -> bool {
    &&& before.dom() == after.dom()
    &&& forall|section: Seq<char>|
        #![trigger after[section]]
        before.dom().contains(section) ==> section_changed_only(
            section,
            before[section],
            after[section],
            places,
        )
}

/// Whether two parts of a text are the same, or slots of one of these places.
pub open spec fn piece_changed_only(before: Piece, after: Piece, places: Set<Place>) -> bool {
    before == after || {
        &&& before is Slot
        &&& after is Slot
        &&& before->section == after->section
        &&& before->key == after->key
        &&& places.contains((before->section, before->key))
    }
}

/// Whether two documents are laid out the same, with the same comments, but for what is written in
/// the slots of these places.
pub open spec fn layout_changed_only(
    before: Seq<Piece>,
    after: Seq<Piece>,
    places: Set<Place>,
) -> bool {
    &&& before.len() == after.len()
    &&& forall|i: int|
        #![trigger after[i]]
        0 <= i < before.len() ==> piece_changed_only(before[i], after[i], places)
}

/// The text of one part.
pub open spec fn piece_text(piece: Piece) -> Seq<char> {
    match piece {
        Piece::Words(words) => words,
        Piece::Slot { written, .. } => written,
    }
}

/// The text of a document that is laid out like this.
pub open spec fn written_out(layout: Seq<Piece>) -> Seq<char>
    decreases layout.len(),
{
    if layout.len() == 0 {
        Seq::empty()
    } else {
        written_out(layout.drop_last()) + piece_text(layout.last())
    }
}

/// Putting another value in a place changes nothing else.
pub proof fn lemma_with_node(tree: Tree, section: Seq<char>, key: Seq<char>, node: Node)
    requires
        node_at(tree, section, key) is Some,
    ensures
        changed_only(tree, with_node(tree, section, key, node), set![(section, key)]),
{
    let after = with_node(tree, section, key, node);
    assert(after.dom() =~= tree.dom());
    assert(after[section]->Table_0.dom() =~= tree[section]->Table_0.dom());
    assert(set![(section, key)].contains((section, key)));
}

/// Two changes one after the other change no more than both do.
pub proof fn lemma_changed_in_turn(
    first: Tree,
    second: Tree,
    third: Tree,
    early: Set<Place>,
    late: Set<Place>,
    places: Set<Place>,
)
    requires
        changed_only(first, second, early),
        changed_only(second, third, late),
        early.subset_of(places),
        late.subset_of(places),
    ensures
        changed_only(first, third, places),
{
    assert forall|section: Seq<char>| #![trigger third[section]]
        first.dom().contains(section) implies section_changed_only(
        section,
        first[section],
        third[section],
        places,
    ) by {
        assert(section_changed_only(section, first[section], second[section], early));
        assert(section_changed_only(section, second[section], third[section], late));
        if first[section] != third[section] {
            assert forall|key: Seq<char>| #![trigger third[section]->Table_0[key]]
                first[section]->Table_0.dom().contains(key) implies first[section]->Table_0[key]
                == third[section]->Table_0[key] || places.contains((section, key)) by {
                let _ = second[section]->Table_0[key];
            }
        }
    }
}

/// Two changes of a layout one after the other change no more than both do.
pub proof fn lemma_layout_changed_in_turn(
    first: Seq<Piece>,
    second: Seq<Piece>,
    third: Seq<Piece>,
    early: Set<Place>,
    late: Set<Place>,
    places: Set<Place>,
)
    requires
        layout_changed_only(first, second, early),
        layout_changed_only(second, third, late),
        early.subset_of(places),
        late.subset_of(places),
    ensures
        layout_changed_only(first, third, places),
{
    assert forall|i: int| #![trigger third[i]] 0 <= i < first.len() implies piece_changed_only(
        first[i],
        third[i],
        places,
    ) by {
        assert(piece_changed_only(first[i], second[i], early));
        assert(piece_changed_only(second[i], third[i], late));
    }
}

/// `Document::from_str` parses a TOML text, or says in words why it is not one.
#[verifier::external_body]
pub(crate) fn parse_document(source: &str) -> (document: Result<Document, String>)
    ensures
        match document {
            Ok(d) => parsed_contents(source@) matches Ok(found) && found == document_contents(d)
                && keeps_parsed_layout(d),
            Err(words) => parsed_contents(source@) matches Err(refusal) && refusal == words@,
        },
{
    source.parse::<Document>().map_err(|error| error.to_string())
}

/// `Document::get`, `Item::get` and `Item::as_str`, one after the other, read the text in `key`
/// of `section`; there is none where the section or the key is missing, or holds something else.
#[verifier::external_body]
pub(crate) fn text_field(document: &Document, section: &str, key: &str) -> (text: Option<String>)
    ensures
        match text {
            Some(s) => node_at(document_contents(*document).tree, section@, key@) == Some(
                Node::Text(s@),
            ),
            None => !(node_at(document_contents(*document).tree, section@, key@) matches Some(node)
                && node is Text),
        },
{
    document.get(section)?.get(key)?.as_str().map(str::to_string)
}

/// `Document::get`, `Item::get` and `Item::as_bool`, one after the other, read the boolean in
/// `key` of `section`; there is none where the section or the key is missing, or holds something
/// else.
#[verifier::external_body]
pub(crate) fn flag_field(document: &Document, section: &str, key: &str) -> (flag: Option<bool>)
    ensures
        match flag {
            Some(b) => node_at(document_contents(*document).tree, section@, key@) == Some(
                Node::Flag(b),
            ),
            None => !(node_at(document_contents(*document).tree, section@, key@) matches Some(node)
                && node is Flag),
        },
{
    document.get(section)?.get(key)?.as_bool()
}

/// `IndexMut` of `Document` and of `Item`, with `toml_edit::value` on the right, replaces the text
/// or the boolean in `key` of `section` by a text. Every other entry stays. So do all comments and
/// the layout, except what is written in that one slot: a comment behind the old value goes with it.
#[verifier::external_body]
pub(crate) fn set_text(document: &mut Document, section: &str, key: &str, text: &str)
    requires
        has_field(document_contents(*old(document)).tree, section@, key@),
    ensures
        document_contents(*final(document)).tree == with_node(
            document_contents(*old(document)).tree,
            section@,
            key@,
            Node::Text(text@),
        ),
        layout_changed_only(
            document_contents(*old(document)).layout,
            document_contents(*final(document)).layout,
            set![(section@, key@)],
        ),
        keeps_parsed_layout(*old(document)) ==> keeps_parsed_layout(*final(document)),
{
    document[section][key] = toml_edit::value(text);
}

/// `IndexMut` of `Document` and of `Item`, with `toml_edit::value` on the right, replaces the text
/// or the boolean in `key` of `section` by a boolean. Every other entry stays. So do all comments
/// and the layout, except what is written in that one slot: a comment behind the old value goes
/// with it.
#[verifier::external_body]
pub(crate) fn set_flag(document: &mut Document, section: &str, key: &str, flag: bool)
    requires
        has_field(document_contents(*old(document)).tree, section@, key@),
    ensures
        document_contents(*final(document)).tree == with_node(
            document_contents(*old(document)).tree,
            section@,
            key@,
            Node::Flag(flag),
        ),
        layout_changed_only(
            document_contents(*old(document)).layout,
            document_contents(*final(document)).layout,
            set![(section@, key@)],
        ),
        keeps_parsed_layout(*old(document)) ==> keeps_parsed_layout(*final(document)),
{
    document[section][key] = toml_edit::value(flag);
}

/// `Document::to_string` writes a document out, part by part. Where the layout came from the
/// parser, parsing what was written gives the same entries again; how it is laid out after that is
/// left unsaid.
#[verifier::external_body]
pub(crate) fn render_document(document: &Document) -> (source: String)
    ensures
        source@ == written_out(document_contents(*document).layout),
        keeps_parsed_layout(*document) ==> reads_as(source@, document_contents(*document).tree),
{
    document.to_string()
}

} // verus!
