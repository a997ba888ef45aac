//! The intermediate man-document model: node types with man-page
//! semantics, page metadata, table column alignment, and the traversal
//! state of the converter.

use vstd::prelude::*;

use crate::md::MdNode;
use crate::md::MdNodeV;
use crate::md::md_seq_view;
use crate::md::lemma_md_seq_view;

verus! {

/// Column alignment of a table column.  `Unspecified` renders identically
/// to `Left`.
#[derive(Clone, Copy, Debug, PartialEq, Eq, Structural)]
pub enum TableAlign {
    Left,
    Right,
    Center,
    Unspecified,
}

/// Page metadata carried by the title line: the page name and manual
/// section are required; the date and the two footer strings are optional.
#[derive(Debug, PartialEq)]
pub struct TitleLine {
    pub name: String,
    pub section: u8,
    pub date: Option<String>,
    pub left_footer: Option<String>,
    pub center_footer: Option<String>,
}

/// Mathematical model of [`TitleLine`]: each string as a sequence of
/// characters.
pub struct TitleLineV {
    pub name: Seq<char>,
    pub section: u8,
    pub date: Option<Seq<char>>,
    pub left_footer: Option<Seq<char>>,
    pub center_footer: Option<Seq<char>>,
}

/// The view of an optional owned string.
pub open spec fn opt_view(o: Option<String>) -> Option<Seq<char>> {
    match o {
        Some(s) => Some(s@),
        None => None,
    }
}

impl View for TitleLine {
    type V = TitleLineV;

    open spec fn view(&self) -> TitleLineV {
        TitleLineV {
            name: self.name@,
            section: self.section,
            date: opt_view(self.date),
            left_footer: opt_view(self.left_footer),
            center_footer: opt_view(self.center_footer),
        }
    }
}

/// A node of the man-document tree.  Each value is an immutable, owned
/// tree fragment; a parent owns its children.
#[derive(Debug)]
pub enum ManNode {
    TitleLine(TitleLine),
    SectionHeading { title: String, children: Vec<ManNode> },
    SubsectionHeading { title: String, children: Vec<ManNode> },
    Paragraph { children: Vec<ManNode> },
    Text(String),
    Bold(String),
    Italic(String),
    CodeBlock(String),
    InlineCode(String),
    BulletList { children: Vec<ManNode> },
    NumberedList { children: Vec<ManNode> },
    ListItem { children: Vec<ManNode> },
    Uri { url: String, title: Option<String>, children: Vec<ManNode> },
    Table { align: Vec<TableAlign>, children: Vec<ManNode> },
    TableRow(Vec<ManNode>),
    TableCell(Vec<ManNode>),
    DefinitionList { children: Vec<ManNode> },
}

/// Mathematical model of [`ManNode`]: strings as character sequences and
/// child vectors as sequences.
pub enum ManNodeV {
    TitleLine(TitleLineV),
    SectionHeading { title: Seq<char>, children: Seq<ManNodeV> },
    SubsectionHeading { title: Seq<char>, children: Seq<ManNodeV> },
    Paragraph { children: Seq<ManNodeV> },
    Text(Seq<char>),
    Bold(Seq<char>),
    Italic(Seq<char>),
    CodeBlock(Seq<char>),
    InlineCode(Seq<char>),
    BulletList { children: Seq<ManNodeV> },
    NumberedList { children: Seq<ManNodeV> },
    ListItem { children: Seq<ManNodeV> },
    Uri { url: Seq<char>, title: Option<Seq<char>>, children: Seq<ManNodeV> },
    Table { align: Seq<TableAlign>, children: Seq<ManNodeV> },
    TableRow(Seq<ManNodeV>),
    TableCell(Seq<ManNodeV>),
    DefinitionList { children: Seq<ManNodeV> },
}

impl View for ManNode {
    type V = ManNodeV;

    open spec fn view(&self) -> ManNodeV
        decreases self,
    {
        match self {
            ManNode::TitleLine(t) => ManNodeV::TitleLine(t@),
            ManNode::SectionHeading { title, children } => ManNodeV::SectionHeading {
                title: title@,
                children: man_seq_view(children@),
            },
            ManNode::SubsectionHeading { title, children } => ManNodeV::SubsectionHeading {
                title: title@,
                children: man_seq_view(children@),
            },
            ManNode::Paragraph { children } => ManNodeV::Paragraph {
                children: man_seq_view(children@),
            },
            ManNode::Text(s) => ManNodeV::Text(s@),
            ManNode::Bold(s) => ManNodeV::Bold(s@),
            ManNode::Italic(s) => ManNodeV::Italic(s@),
            ManNode::CodeBlock(s) => ManNodeV::CodeBlock(s@),
            ManNode::InlineCode(s) => ManNodeV::InlineCode(s@),
            ManNode::BulletList { children } => ManNodeV::BulletList {
                children: man_seq_view(children@),
            },
            ManNode::NumberedList { children } => ManNodeV::NumberedList {
                children: man_seq_view(children@),
            },
            ManNode::ListItem { children } => ManNodeV::ListItem {
                children: man_seq_view(children@),
            },
            ManNode::Uri { url, title, children } => ManNodeV::Uri {
                url: url@,
                title: opt_view(*title),
                children: man_seq_view(children@),
            },
            ManNode::Table { align, children } => ManNodeV::Table {
                align: align@,
                children: man_seq_view(children@),
            },
            ManNode::TableRow(children) => ManNodeV::TableRow(man_seq_view(children@)),
            ManNode::TableCell(children) => ManNodeV::TableCell(man_seq_view(children@)),
            ManNode::DefinitionList { children } => ManNodeV::DefinitionList {
                children: man_seq_view(children@),
            },
        }
    }
}

/// The view of a sequence of man-document nodes, element by element.
pub open spec fn man_seq_view(s: Seq<ManNode>) -> Seq<ManNodeV>
    decreases s,
{
    if s.len() == 0 {
        Seq::empty()
    } else {
        seq![s[0]@] + man_seq_view(s.drop_first())
    }
}

pub proof fn lemma_man_seq_view(s: Seq<ManNode>)
    ensures
        man_seq_view(s).len() == s.len(),
        forall|i: int| 0 <= i < s.len() ==> man_seq_view(s)[i] == #[trigger] s[i]@,
    decreases s,
{
    if s.len() > 0 {
        lemma_man_seq_view(s.drop_first());
        assert forall|i: int| 0 <= i < s.len() implies man_seq_view(s)[i] == #[trigger] s[i]@ by {
            if i > 0 {
                assert(man_seq_view(s) == seq![s[0]@] + man_seq_view(s.drop_first()));
                assert((seq![s[0]@] + man_seq_view(s.drop_first()))[i] == man_seq_view(
                    s.drop_first(),
                )[i - 1]);
                assert(s.drop_first()[i - 1] == s[i]);
            }
        }
    }
}

pub proof fn lemma_man_seq_view_push(s: Seq<ManNode>, x: ManNode)
    ensures
        man_seq_view(s.push(x)) =~= man_seq_view(s).push(x@),
{
    lemma_man_seq_view(s);
    lemma_man_seq_view(s.push(x));
    assert forall|i: int|
        0 <= i < s.len() + 1 implies man_seq_view(s.push(x))[i] == man_seq_view(s).push(x@)[i] by {
        assert(man_seq_view(s.push(x))[i] == s.push(x)[i]@);
        if i < s.len() {
            assert(s.push(x)[i] == s[i]);
            assert(man_seq_view(s)[i] == s[i]@);
        } else {
            assert(s.push(x)[i] == x);
        }
    }
}

impl Clone for TitleLine {
    fn clone(&self) -> (r: Self)
        ensures
            r@ == self@,
    {
        TitleLine {
            name: self.name.clone(),
            section: self.section,
            date: clone_opt_string(&self.date),
            left_footer: clone_opt_string(&self.left_footer),
            center_footer: clone_opt_string(&self.center_footer),
        }
    }
}

/// A copy of an optional owned string.
fn clone_opt_string(o: &Option<String>) -> (r: Option<String>)
    ensures
        opt_view(r) == opt_view(*o),
{
    match o {
        Some(s) => Some(s.clone()),
        None => None,
    }
}

/// The plain text of one source node, as the simple-text extractor reads
/// it: text and inline-code leaves contribute their literal value,
/// emphasis and strong wrappers contribute the flattened text of their
/// children, and every other node contributes nothing.
pub open spec fn simple_text(n: MdNodeV) -> Seq<char>
    decreases n,
{
    match n {
        MdNodeV::Text { value } => value,
        MdNodeV::Emphasis { children } => simple_text_seq(children),
        MdNodeV::Strong { children } => simple_text_seq(children),
        MdNodeV::InlineCode { value } => value,
        _ => Seq::empty(),
    }
}

/// The concatenated simple text of a sequence of source nodes.
pub open spec fn simple_text_seq(s: Seq<MdNodeV>) -> Seq<char>
    decreases s,
{
    if s.len() == 0 {
        Seq::empty()
    } else {
        simple_text(s[0]) + simple_text_seq(s.drop_first())
    }
}

/// Splices every paragraph of `s` into its surroundings: a paragraph's
/// children take the paragraph's place, every other node is kept as it
/// is.  Applied to the converted children of a list item, so that a list
/// item never contains a nested paragraph box.
pub open spec fn splice_paragraphs(s: Seq<ManNodeV>) -> Seq<ManNodeV>
    decreases s,
{
    if s.len() == 0 {
        Seq::empty()
    } else {
        (match s[0] {
            ManNodeV::Paragraph { children } => children,
            _ => seq![s[0]],
        }) + splice_paragraphs(s.drop_first())
    }
}

/// What the conversion of one source node produces: the man-document
/// nodes it emits and the definition-list flag after it, given the flag
/// `dl` before it.  This is the converter's contract, rule for rule:
/// a front-matter block becomes exactly one title line; a depth-1
/// heading a section heading and any deeper heading a subsection
/// heading, with the simple text of its children as title; an ordered
/// list always a numbered list, an unordered list a definition list
/// exactly when the flag stands after its items, else a bullet list; a
/// thematic break emits nothing and toggles the flag; an unrecognized
/// node emits nothing.
pub open spec fn convert_node_spec(n: MdNodeV, dl: bool) -> (Seq<ManNodeV>, bool)
    decreases n,
{
    match n {
        MdNodeV::Root { children } => convert_seq_spec(children, dl),
        MdNodeV::FrontMatter(t) => (seq![ManNodeV::TitleLine(t)], dl),
        MdNodeV::Heading { depth, children } => (
            seq![
                if depth == 1 {
                    ManNodeV::SectionHeading {
                        title: simple_text_seq(children),
                        children: Seq::empty(),
                    }
                } else {
                    ManNodeV::SubsectionHeading {
                        title: simple_text_seq(children),
                        children: Seq::empty(),
                    }
                },
            ],
            dl,
        ),
        MdNodeV::Paragraph { children } => {
            let (inner, dl2) = convert_seq_spec(children, dl);
            (seq![ManNodeV::Paragraph { children: inner }], dl2)
        },
        MdNodeV::Code { value } => (seq![ManNodeV::CodeBlock(value)], dl),
        MdNodeV::List { ordered, start, children } => {
            let (items, dl2) = convert_seq_spec(children, dl);
            let node = if ordered {
                ManNodeV::NumberedList { children: items }
            } else if dl2 {
                ManNodeV::DefinitionList { children: items }
            } else {
                ManNodeV::BulletList { children: items }
            };
            (seq![node], dl2)
        },
        MdNodeV::ListItem { children } => {
            let (inner, dl2) = convert_seq_spec(children, dl);
            (seq![ManNodeV::ListItem { children: splice_paragraphs(inner) }], dl2)
        },
        MdNodeV::Text { value } => (seq![ManNodeV::Text(value)], dl),
        MdNodeV::Emphasis { children } => (seq![ManNodeV::Italic(simple_text_seq(children))], dl),
        MdNodeV::Strong { children } => (seq![ManNodeV::Bold(simple_text_seq(children))], dl),
        MdNodeV::InlineCode { value } => (seq![ManNodeV::InlineCode(value)], dl),
        MdNodeV::Link { url, title, children } => {
            let (inner, dl2) = convert_seq_spec(children, dl);
            (seq![ManNodeV::Uri { url, title, children: inner }], dl2)
        },
        MdNodeV::Table { align, children } => {
            let (inner, dl2) = convert_seq_spec(children, dl);
            (seq![ManNodeV::Table { align, children: inner }], dl2)
        },
        MdNodeV::TableRow { children } => {
            let (inner, dl2) = convert_seq_spec(children, dl);
            (seq![ManNodeV::TableRow(inner)], dl2)
        },
        MdNodeV::TableCell { children } => {
            let (inner, dl2) = convert_seq_spec(children, dl);
            (seq![ManNodeV::TableCell(inner)], dl2)
        },
        MdNodeV::ThematicBreak => (Seq::empty(), !dl),
        MdNodeV::Other => (Seq::empty(), dl),
    }
}

/// What the conversion of a sequence of source nodes produces: the
/// concatenation of each node's output, the flag threaded left to right.
pub open spec fn convert_seq_spec(s: Seq<MdNodeV>, dl: bool) -> (Seq<ManNodeV>, bool)
    decreases s,
{
    if s.len() == 0 {
        (Seq::empty(), dl)
    } else {
        let (first, dl1) = convert_node_spec(s[0], dl);
        let (rest, dl2) = convert_seq_spec(s.drop_first(), dl1);
        (first + rest, dl2)
    }
}

/// Traversal state of the converter: whether the walk currently stands
/// inside a definition-list region, toggled by each thematic break.
pub struct ConvertState {
    in_definition_list: bool,
}

impl View for ConvertState {
    type V = bool;

    closed spec fn view(&self) -> bool {
        self.in_definition_list
    }
}

impl ConvertState {
    /// A fresh traversal state, outside any definition-list region.
    pub fn new() -> (s: Self)
        ensures
            s@ == false,
    {
        Self { in_definition_list: false }
    }

    /// Flips the definition-list mode; called on each thematic break.
    pub fn toggle_in_definition_list(&mut self)
        ensures
            final(self)@ == !old(self)@,
    {
        self.in_definition_list = !self.in_definition_list
    }

    /// Whether the walk currently stands inside a definition-list region.
    pub fn in_definition_list(&self) -> (b: bool)
        ensures
            b == self@,
    {
        self.in_definition_list
    }
}

pub proof fn lemma_simple_text_snoc(s: Seq<MdNodeV>, x: MdNodeV)
    ensures
        simple_text_seq(s.push(x)) == simple_text_seq(s) + simple_text(x),
    decreases s,
{
    if s.len() == 0 {
        assert(s.push(x).drop_first() =~= s);
        assert(Seq::<char>::empty() + simple_text(x) =~= simple_text(x) + Seq::<char>::empty());
    } else {
        assert(s.push(x)[0] == s[0]);
        assert(s.push(x).drop_first() =~= s.drop_first().push(x));
        lemma_simple_text_snoc(s.drop_first(), x);
        assert(simple_text(s[0]) + (simple_text_seq(s.drop_first()) + simple_text(x)) =~= (
        simple_text(s[0]) + simple_text_seq(s.drop_first())) + simple_text(x));
    }
}

pub proof fn lemma_convert_seq_snoc(s: Seq<MdNodeV>, x: MdNodeV, dl: bool)
    ensures
        convert_seq_spec(s.push(x), dl).0 == convert_seq_spec(s, dl).0 + convert_node_spec(
            x,
            convert_seq_spec(s, dl).1,
        ).0,
        convert_seq_spec(s.push(x), dl).1 == convert_node_spec(x, convert_seq_spec(s, dl).1).1,
    decreases s,
{
    if s.len() == 0 {
        reveal_with_fuel(convert_seq_spec, 3);
        assert(s.push(x)[0] == x);
        assert(s.push(x).drop_first() =~= s);
        assert(convert_seq_spec(s.push(x), dl).0 == convert_node_spec(x, dl).0
            + convert_seq_spec(s, dl).0);
        assert(convert_node_spec(x, dl).0 + Seq::<ManNodeV>::empty() =~= Seq::<
            ManNodeV,
        >::empty() + convert_node_spec(x, dl).0);
    } else {
        assert(s.push(x)[0] == s[0]);
        assert(s.push(x).drop_first() =~= s.drop_first().push(x));
        let dl1 = convert_node_spec(s[0], dl).1;
        let tail = s.drop_first();
        lemma_convert_seq_snoc(tail, x, dl1);
        assert(convert_seq_spec(s.push(x), dl).0 == convert_node_spec(s[0], dl).0
            + convert_seq_spec(tail.push(x), dl1).0);
        assert(convert_seq_spec(s.push(x), dl).1 == convert_seq_spec(tail.push(x), dl1).1);
        assert(convert_seq_spec(s, dl).0 == convert_node_spec(s[0], dl).0 + convert_seq_spec(
            tail,
            dl1,
        ).0);
        assert(convert_seq_spec(s, dl).1 == convert_seq_spec(tail, dl1).1);
        assert(convert_node_spec(s[0], dl).0 + (convert_seq_spec(tail, dl1).0
            + convert_node_spec(x, convert_seq_spec(tail, dl1).1).0) =~= (convert_node_spec(
            s[0],
            dl,
        ).0 + convert_seq_spec(tail, dl1).0) + convert_node_spec(
            x,
            convert_seq_spec(tail, dl1).1,
        ).0);
    }
}

/// A vector holding exactly one man-document node.
fn single(n: ManNode) -> (r: Vec<ManNode>)
    ensures
        man_seq_view(r@) == seq![n@],
{
    let ghost nv = n@;
    let mut r: Vec<ManNode> = Vec::new();
    r.push(n);
    proof {
        assert(r@.drop_first() =~= Seq::<ManNode>::empty());
        assert(man_seq_view(r@) == seq![r@[0]@] + man_seq_view(r@.drop_first()));
        assert(seq![nv] + Seq::<ManNodeV>::empty() =~= seq![nv]);
    }
    r
}

/// Moves every node of `cs` to the end of `items`, in order.
fn append_all(items: &mut Vec<ManNode>, cs: Vec<ManNode>)
    ensures
        man_seq_view(final(items)@) == man_seq_view(old(items)@) + man_seq_view(cs@),
{
    let ghost target = man_seq_view(items@) + man_seq_view(cs@);
    let mut cs = cs;
    while cs.len() > 0
        invariant
            man_seq_view(items@) + man_seq_view(cs@) == target,
        decreases cs.len(),
    {
        let ghost pre = cs@;
        let ghost items_pre = items@;
        let n = cs.remove(0);
        let ghost nv = n@;
        items.push(n);
        proof {
            assert(pre.remove(0) =~= pre.drop_first());
            assert(man_seq_view(pre) == seq![nv] + man_seq_view(pre.drop_first()));
            lemma_man_seq_view_push(items_pre, items@[items_pre.len() as int]);
            assert(items@ =~= items_pre.push(items@[items_pre.len() as int]));
            assert(man_seq_view(items_pre).push(nv) + man_seq_view(cs@) =~= man_seq_view(items_pre)
                + (seq![nv] + man_seq_view(cs@)));
        }
    }
    proof {
        assert(man_seq_view(cs@) =~= Seq::<ManNodeV>::empty());
        assert(man_seq_view(items@) + Seq::<ManNodeV>::empty() =~= man_seq_view(items@));
    }
}

/// Moves every node of `part` to the end of `items`, splicing the
/// children of each paragraph in place of the paragraph itself.
fn splice_into(items: &mut Vec<ManNode>, part: Vec<ManNode>)
    ensures
        man_seq_view(final(items)@) == man_seq_view(old(items)@) + splice_paragraphs(
            man_seq_view(part@),
        ),
{
    let ghost target = man_seq_view(items@) + splice_paragraphs(man_seq_view(part@));
    let mut part = part;
    while part.len() > 0
        invariant
            man_seq_view(items@) + splice_paragraphs(man_seq_view(part@)) == target,
        decreases part.len(),
    {
        let ghost pre = part@;
        let ghost items_pre = items@;
        let n = part.remove(0);
        let ghost nv = n@;
        proof {
            assert(pre.remove(0) =~= pre.drop_first());
            assert(man_seq_view(pre) == seq![nv] + man_seq_view(pre.drop_first()));
            assert((seq![nv] + man_seq_view(pre.drop_first())).drop_first() =~= man_seq_view(
                pre.drop_first(),
            ));
            assert(splice_paragraphs(man_seq_view(pre)) == (match nv {
                ManNodeV::Paragraph { children } => children,
                _ => seq![nv],
            }) + splice_paragraphs(man_seq_view(pre.drop_first())));
        }
        match n {
            ManNode::Paragraph { children } => {
                proof {
                    assert(nv == ManNodeV::Paragraph { children: man_seq_view(children@) });
                }
                append_all(items, children);
            },
            other => {
                let ghost ov = other@;
                items.push(other);
                proof {
                    lemma_man_seq_view_push(items_pre, items@[items_pre.len() as int]);
                    assert(items@ =~= items_pre.push(items@[items_pre.len() as int]));
                    assert(man_seq_view(items_pre).push(ov) =~= man_seq_view(items_pre)
                        + seq![ov]);
                }
            },
        }
        proof {
            assert((man_seq_view(items_pre) + (match nv {
                ManNodeV::Paragraph { children } => children,
                _ => seq![nv],
            })) + splice_paragraphs(man_seq_view(part@)) =~= man_seq_view(items_pre) + ((match nv {
                ManNodeV::Paragraph { children } => children,
                _ => seq![nv],
            }) + splice_paragraphs(man_seq_view(part@))));
        }
    }
    proof {
        assert(man_seq_view(part@) =~= Seq::<ManNodeV>::empty());
        assert(man_seq_view(items@) + Seq::<ManNodeV>::empty() =~= man_seq_view(items@));
    }
}

/// A copy of a column-alignment vector.
fn clone_aligns(a: &Vec<TableAlign>) -> (r: Vec<TableAlign>)
    ensures
        r@ == a@,
{
    let mut r: Vec<TableAlign> = Vec::new();
    let mut i: usize = 0;
    while i < a.len()
        invariant
            i <= a.len(),
            r@ == a@.take(i as int),
        decreases a.len() - i,
    {
        r.push(a[i]);
        proof {
            assert(a@.take(i + 1) =~= a@.take(i as int).push(a@[i as int]));
        }
        i = i + 1;
    }
    proof {
        assert(a@.take(a@.len() as int) =~= a@);
    }
    r
}

/// The simple text of one source node (see [`simple_text`]).
pub fn extract_simple_text(node: &MdNode) -> (r: String)
    ensures
        r@ == simple_text(node@),
    decreases node,
{
    match node {
        MdNode::Text { value } => value.clone(),
        MdNode::Emphasis { children } => extract_text_seq(children),
        MdNode::Strong { children } => extract_text_seq(children),
        MdNode::InlineCode { value } => value.clone(),
        _ => String::new(),
    }
}

/// The concatenated simple text of a sequence of source nodes.
fn extract_text_seq(children: &Vec<MdNode>) -> (r: String)
    ensures
        r@ == simple_text_seq(md_seq_view(children@)),
    decreases children@,
{
    let ghost views = md_seq_view(children@);
    let mut r = String::new();
    let mut i: usize = 0;
    proof {
        lemma_md_seq_view(children@);
    }
    while i < children.len()
        invariant
            i <= children.len(),
            views == md_seq_view(children@),
            views.len() == children@.len(),
            forall|j: int| 0 <= j < children@.len() ==> views[j] == #[trigger] children@[j]@,
            r@ == simple_text_seq(views.take(i as int)),
        decreases children.len() - i,
    {
        let part = extract_simple_text(&children[i]);
        r.append(part.as_str());
        proof {
            lemma_simple_text_snoc(views.take(i as int), views[i as int]);
            assert(views.take(i + 1) =~= views.take(i as int).push(views[i as int]));
        }
        i = i + 1;
    }
    proof {
        assert(views.take(children@.len() as int) =~= views);
    }
    r
}

/// Converts a sequence of source nodes, threading the traversal state
/// and concatenating the results.
fn convert_children(children: &Vec<MdNode>, state: &mut ConvertState) -> (r: Vec<ManNode>)
    ensures
        man_seq_view(r@) == convert_seq_spec(md_seq_view(children@), old(state)@).0,
        final(state)@ == convert_seq_spec(md_seq_view(children@), old(state)@).1,
    decreases children@,
{
    let ghost views = md_seq_view(children@);
    let ghost dl0 = state@;
    let mut r: Vec<ManNode> = Vec::new();
    let mut i: usize = 0;
    proof {
        lemma_md_seq_view(children@);
    }
    while i < children.len()
        invariant
            i <= children.len(),
            views == md_seq_view(children@),
            views.len() == children@.len(),
            forall|j: int| 0 <= j < children@.len() ==> views[j] == #[trigger] children@[j]@,
            man_seq_view(r@) == convert_seq_spec(views.take(i as int), dl0).0,
            state@ == convert_seq_spec(views.take(i as int), dl0).1,
        decreases children.len() - i,
    {
        let part = convert_markdown_node(&children[i], state);
        proof {
            lemma_convert_seq_snoc(views.take(i as int), views[i as int], dl0);
            assert(views.take(i + 1) =~= views.take(i as int).push(views[i as int]));
        }
        append_all(&mut r, part);
        i = i + 1;
    }
    proof {
        assert(views.take(children@.len() as int) =~= views);
    }
    r
}

/// Converts one source node into its man-document nodes, as
/// [`convert_node_spec`] states, threading the definition-list flag
/// through `state`.
pub fn convert_markdown_node(node: &MdNode, state: &mut ConvertState) -> (r: Vec<ManNode>)
    ensures
        man_seq_view(r@) == convert_node_spec(node@, old(state)@).0,
        final(state)@ == convert_node_spec(node@, old(state)@).1,
    decreases node,
{
    match node {
        MdNode::Root { children } => convert_children(children, state),
        MdNode::FrontMatter(t) => single(ManNode::TitleLine(t.clone())),
        MdNode::Heading { depth, children } => {
            let title = extract_text_seq(children);
            let heading = if *depth == 1 {
                ManNode::SectionHeading { title, children: Vec::new() }
            } else {
                ManNode::SubsectionHeading { title, children: Vec::new() }
            };
            proof {
                assert(man_seq_view(Seq::<ManNode>::empty()) == Seq::<ManNodeV>::empty());
            }
            single(heading)
        },
        MdNode::Paragraph { children } => {
            let inner = convert_children(children, state);
            single(ManNode::Paragraph { children: inner })
        },
        MdNode::Code { value } => single(ManNode::CodeBlock(value.clone())),
        MdNode::List { ordered, start: _, children } => {
            let items = convert_children(children, state);
            let man = if *ordered {
                ManNode::NumberedList { children: items }
            } else if state.in_definition_list() {
                ManNode::DefinitionList { children: items }
            } else {
                ManNode::BulletList { children: items }
            };
            single(man)
        },
        MdNode::ListItem { children } => {
            let inner = convert_children(children, state);
            let mut items: Vec<ManNode> = Vec::new();
            splice_into(&mut items, inner);
            proof {
                assert(Seq::<ManNodeV>::empty() + splice_paragraphs(man_seq_view(items@))
                    =~= splice_paragraphs(man_seq_view(items@)));
            }
            single(ManNode::ListItem { children: items })
        },
        MdNode::Text { value } => single(ManNode::Text(value.clone())),
        MdNode::Emphasis { children } => single(ManNode::Italic(extract_text_seq(children))),
        MdNode::Strong { children } => single(ManNode::Bold(extract_text_seq(children))),
        MdNode::InlineCode { value } => single(ManNode::InlineCode(value.clone())),
        MdNode::Link { url, title, children } => {
            let inner = convert_children(children, state);
            single(
                ManNode::Uri {
                    url: url.clone(),
                    title: clone_opt_string(title),
                    children: inner,
                },
            )
        },
        MdNode::Table { align, children } => {
            let inner = convert_children(children, state);
            single(ManNode::Table { align: clone_aligns(align), children: inner })
        },
        MdNode::TableRow { children } => {
            let inner = convert_children(children, state);
            single(ManNode::TableRow(inner))
        },
        MdNode::TableCell { children } => {
            let inner = convert_children(children, state);
            single(ManNode::TableCell(inner))
        },
        MdNode::ThematicBreak => {
            state.toggle_in_definition_list();
            let r: Vec<ManNode> = Vec::new();
            proof {
                assert(man_seq_view(r@) == Seq::<ManNodeV>::empty());
            }
            r
        },
        MdNode::Other => {
            let r: Vec<ManNode> = Vec::new();
            proof {
                assert(man_seq_view(r@) == Seq::<ManNodeV>::empty());
            }
            r
        },
    }
}

} // verus!
