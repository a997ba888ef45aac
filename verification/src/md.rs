//! The library's model of the generic source-document tree that the
//! converter consumes.  The driver mirrors the external parser's tree
//! into this type, node for node; a front-matter block arrives with its
//! metadata already read (see [`crate::front_matter`]), and any source
//! node kind outside this set arrives as [`MdNode::Other`].

use vstd::prelude::*;

use crate::man_node::TableAlign;
use crate::man_node::TitleLine;
use crate::man_node::TitleLineV;
use crate::man_node::opt_view;

verus! {

/// A node of the generic source-document tree.
#[derive(Debug)]
pub enum MdNode {
    Root { children: Vec<MdNode> },
    FrontMatter(TitleLine),
    Heading { depth: u8, children: Vec<MdNode> },
    Paragraph { children: Vec<MdNode> },
    Code { value: String },
    List { ordered: bool, start: Option<u32>, children: Vec<MdNode> },
    ListItem { children: Vec<MdNode> },
    Text { value: String },
    Emphasis { children: Vec<MdNode> },
    Strong { children: Vec<MdNode> },
    InlineCode { value: String },
    Link { url: String, title: Option<String>, children: Vec<MdNode> },
    Table { align: Vec<TableAlign>, children: Vec<MdNode> },
    TableRow { children: Vec<MdNode> },
    TableCell { children: Vec<MdNode> },
    ThematicBreak,
    Other,
}

/// Mathematical model of [`MdNode`].
pub enum MdNodeV {
    Root { children: Seq<MdNodeV> },
    FrontMatter(TitleLineV),
    Heading { depth: u8, children: Seq<MdNodeV> },
    Paragraph { children: Seq<MdNodeV> },
    Code { value: Seq<char> },
    List { ordered: bool, start: Option<u32>, children: Seq<MdNodeV> },
    ListItem { children: Seq<MdNodeV> },
    Text { value: Seq<char> },
    Emphasis { children: Seq<MdNodeV> },
    Strong { children: Seq<MdNodeV> },
    InlineCode { value: Seq<char> },
    Link { url: Seq<char>, title: Option<Seq<char>>, children: Seq<MdNodeV> },
    Table { align: Seq<TableAlign>, children: Seq<MdNodeV> },
    TableRow { children: Seq<MdNodeV> },
    TableCell { children: Seq<MdNodeV> },
    ThematicBreak,
    Other,
}

impl View for MdNode {
    type V = MdNodeV;

    open spec fn view(&self) -> MdNodeV
        decreases self,
    {
        match self {
            MdNode::Root { children } => MdNodeV::Root { children: md_seq_view(children@) },
            MdNode::FrontMatter(t) => MdNodeV::FrontMatter(t@),
            MdNode::Heading { depth, children } => MdNodeV::Heading {
                depth: *depth,
                children: md_seq_view(children@),
            },
            MdNode::Paragraph { children } => MdNodeV::Paragraph {
                children: md_seq_view(children@),
            },
            MdNode::Code { value } => MdNodeV::Code { value: value@ },
            MdNode::List { ordered, start, children } => MdNodeV::List {
                ordered: *ordered,
                start: *start,
                children: md_seq_view(children@),
            },
            MdNode::ListItem { children } => MdNodeV::ListItem {
                children: md_seq_view(children@),
            },
            MdNode::Text { value } => MdNodeV::Text { value: value@ },
            MdNode::Emphasis { children } => MdNodeV::Emphasis {
                children: md_seq_view(children@),
            },
            MdNode::Strong { children } => MdNodeV::Strong { children: md_seq_view(children@) },
            MdNode::InlineCode { value } => MdNodeV::InlineCode { value: value@ },
            MdNode::Link { url, title, children } => MdNodeV::Link {
                url: url@,
                title: opt_view(*title),
                children: md_seq_view(children@),
            },
            MdNode::Table { align, children } => MdNodeV::Table {
                align: align@,
                children: md_seq_view(children@),
            },
            MdNode::TableRow { children } => MdNodeV::TableRow {
                children: md_seq_view(children@),
            },
            MdNode::TableCell { children } => MdNodeV::TableCell {
                children: md_seq_view(children@),
            },
            MdNode::ThematicBreak => MdNodeV::ThematicBreak,
            MdNode::Other => MdNodeV::Other,
        }
    }
}

/// The view of a sequence of source-document nodes, element by element.
pub open spec fn md_seq_view(s: Seq<MdNode>) -> Seq<MdNodeV>
    decreases s,
{
    if s.len() == 0 {
        Seq::empty()
    } else {
        seq![s[0]@] + md_seq_view(s.drop_first())
    }
}

pub proof fn lemma_md_seq_view(s: Seq<MdNode>)
    ensures
        md_seq_view(s).len() == s.len(),
        forall|i: int| 0 <= i < s.len() ==> md_seq_view(s)[i] == #[trigger] s[i]@,
    decreases s,
{
    if s.len() > 0 {
        lemma_md_seq_view(s.drop_first());
        assert forall|i: int| 0 <= i < s.len() implies md_seq_view(s)[i] == #[trigger] s[i]@ by {
            if i > 0 {
                assert(md_seq_view(s) == seq![s[0]@] + md_seq_view(s.drop_first()));
                assert((seq![s[0]@] + md_seq_view(s.drop_first()))[i] == md_seq_view(
                    s.drop_first(),
                )[i - 1]);
                assert(s.drop_first()[i - 1] == s[i]);
            }
        }
    }
}

} // verus!
