//! Tests of the converter: the source tree is produced by the real
//! Markdown parser and mirrored into the library's source model, as the
//! driver does.

use markdown::mdast::Node;
use markdown::Constructs;
use markdown::ParseOptions;
use markdown::to_mdast;
use mdman::front_matter::parse_front_matter;
use mdman::man_node::ConvertState;
use mdman::man_node::ManNode;
use mdman::man_node::TableAlign;
use mdman::md::MdNode;
use mdman::man_node::convert_markdown_node;
use mdman::roff::render_document_now;

fn mirror_align(a: &markdown::mdast::AlignKind) -> TableAlign {
    match a {
        markdown::mdast::AlignKind::Left => TableAlign::Left,
        markdown::mdast::AlignKind::Right => TableAlign::Right,
        markdown::mdast::AlignKind::Center => TableAlign::Center,
        markdown::mdast::AlignKind::None => TableAlign::Unspecified,
    }
}

fn mirror_all(nodes: &[Node]) -> Vec<MdNode> {
    nodes.iter().map(mirror).collect()
}

/// Mirrors the external parser's tree into the library's source model,
/// reading front matter through the library.
fn mirror(node: &Node) -> MdNode {
    match node {
        Node::Root(x) => MdNode::Root { children: mirror_all(&x.children) },
        Node::Yaml(x) => match parse_front_matter(&x.value) {
            Ok(t) => MdNode::FrontMatter(t),
            Err(e) => panic!("front matter rejected: {:?}", e),
        },
        Node::Heading(x) => MdNode::Heading { depth: x.depth, children: mirror_all(&x.children) },
        Node::Paragraph(x) => MdNode::Paragraph { children: mirror_all(&x.children) },
        Node::Code(x) => MdNode::Code { value: x.value.clone() },
        Node::List(x) => {
            MdNode::List { ordered: x.ordered, start: x.start, children: mirror_all(&x.children) }
        }
        Node::ListItem(x) => MdNode::ListItem { children: mirror_all(&x.children) },
        Node::Text(x) => MdNode::Text { value: x.value.clone() },
        Node::Emphasis(x) => MdNode::Emphasis { children: mirror_all(&x.children) },
        Node::Strong(x) => MdNode::Strong { children: mirror_all(&x.children) },
        Node::InlineCode(x) => MdNode::InlineCode { value: x.value.clone() },
        Node::Link(x) => MdNode::Link {
            url: x.url.clone(),
            title: x.title.clone(),
            children: mirror_all(&x.children),
        },
        Node::Table(x) => MdNode::Table {
            align: x.align.iter().map(mirror_align).collect(),
            children: mirror_all(&x.children),
        },
        Node::TableRow(x) => MdNode::TableRow { children: mirror_all(&x.children) },
        Node::TableCell(x) => MdNode::TableCell { children: mirror_all(&x.children) },
        Node::ThematicBreak(_) => MdNode::ThematicBreak,
        _ => MdNode::Other,
    }
}

fn parse(markdown_input: &str) -> Vec<ManNode> {
    let options = ParseOptions::gfm();
    let ast = to_mdast(markdown_input, &options).unwrap();
    let md = mirror(&ast);
    let mut convert_state = ConvertState::new();
    convert_markdown_node(&md, &mut convert_state)
}

fn parse_with_front_matter(markdown_input: &str) -> Vec<ManNode> {
    let parse_options = ParseOptions {
        constructs: Constructs {
            frontmatter: true,
            gfm_table: true,
            ..Constructs::default()
        },
        ..ParseOptions::gfm()
    };
    let ast = to_mdast(markdown_input, &parse_options).unwrap();
    let md = mirror(&ast);
    let mut convert_state = ConvertState::new();
    convert_markdown_node(&md, &mut convert_state)
}

/// Normalize line endings and trim for consistent testing.
fn normalize(s: &str) -> String {
    s.replace("\r\n", "\n").trim().to_string()
}

#[test]
fn test_heading_conversion() {
    let nodes = parse("# Hello\n");
    assert!(
        matches!(nodes[0], ManNode::SectionHeading { ref title, children: _ } if title == "Hello")
    );
}

#[test]
fn test_paragraph_conversion() {
    let nodes = parse("Hello, world!\n");
    assert_eq!(nodes.len(), 1);
    match &nodes[0] {
        ManNode::Paragraph { children } => {
            assert!(matches!(&children[0], ManNode::Text(text) if text == "Hello, world!"))
        }
        _ => panic!("Expected paragraph"),
    }
}

#[test]
fn test_bold_text() {
    let nodes = parse("**Bold**");
    let paragraph = match &nodes[0] {
        ManNode::Paragraph { children } => children,
        _ => panic!("Expected paragraph"),
    };
    assert!(matches!(&paragraph[0], ManNode::Bold(text) if text == "Bold"));
}

#[test]
fn test_list_conversion() {
    let nodes = parse("- item 1\n- item 2");
    assert_eq!(nodes.len(), 1);
    assert!(matches!(nodes[0], ManNode::BulletList { .. }));
}

#[test]
fn test_inline_code() {
    let nodes = parse("`code`");
    let para = match &nodes[0] {
        ManNode::Paragraph { children } => children,
        _ => panic!("Expected paragraph"),
    };
    assert!(matches!(&para[0], ManNode::InlineCode(code) if code == "code"));
}

#[test]
fn test_subsection_heading_conversion() {
    let nodes = parse("## Deeper\n");
    assert!(
        matches!(nodes[0], ManNode::SubsectionHeading { ref title, children: _ } if title == "Deeper")
    );
}

#[test]
fn test_ordered_list_ignores_markers() {
    let from_ones = parse("1. first\n1. second\n1. third");
    let from_sevens = parse("7. first\n8. second\n9. third");
    assert!(matches!(from_ones[0], ManNode::NumberedList { .. }));
    let a = from_ones[0].to_roff_with_today("");
    let b = from_sevens[0].to_roff_with_today("");
    assert_eq!(a, b);
    assert_eq!(
        a,
        "\n.RS 2\n.PD 0\n.IP 1. 4\nfirst\n.IP 2. 4\nsecond\n.IP 3. 4\nthird\n\n.RE\n"
    );
}

#[test]
fn test_thematic_break_toggles_definition_list() {
    let nodes = parse("- before\n\n---\n\n- inside\n\n---\n\n- after");
    assert_eq!(nodes.len(), 3);
    assert!(matches!(nodes[0], ManNode::BulletList { .. }));
    assert!(matches!(nodes[1], ManNode::DefinitionList { .. }));
    assert!(matches!(nodes[2], ManNode::BulletList { .. }));
}

#[test]
fn test_odd_thematic_breaks_stay_in_definition_list() {
    let nodes = parse("---\n\n- first\n\n* still");
    assert_eq!(nodes.len(), 2);
    assert!(matches!(nodes[0], ManNode::DefinitionList { .. }));
    assert!(matches!(nodes[1], ManNode::DefinitionList { .. }));
}

#[test]
fn test_list_item_paragraph_splicing() {
    let nodes = parse("- only item");
    let items = match &nodes[0] {
        ManNode::BulletList { children } => children,
        _ => panic!("Expected bullet list"),
    };
    let inner = match &items[0] {
        ManNode::ListItem { children } => children,
        _ => panic!("Expected list item"),
    };
    assert!(matches!(&inner[0], ManNode::Text(text) if text == "only item"));
}

#[test]
fn test_table_alignment_copied() {
    let nodes = parse("| A | B | C |\n|:--|:-:|--:|\n| a | b | c |\n");
    let align = match &nodes[0] {
        ManNode::Table { align, children: _ } => align,
        _ => panic!("Expected table"),
    };
    assert_eq!(align.len(), 3);
    assert!(matches!(align[0], TableAlign::Left));
    assert!(matches!(align[1], TableAlign::Center));
    assert!(matches!(align[2], TableAlign::Right));
}

#[test]
fn test_unknown_nodes_dropped() {
    let nodes = parse("> a quote\n");
    assert_eq!(nodes.len(), 0);
}

#[test]
fn test_nested_emphasis_flattens() {
    let nodes = parse("**bold *inner* text**");
    let para = match &nodes[0] {
        ManNode::Paragraph { children } => children,
        _ => panic!("Expected paragraph"),
    };
    assert!(matches!(&para[0], ManNode::Bold(text) if text == "bold inner text"));
}

#[test]
fn test_exact_roff_output_from_markdown() {
    let markdown_input = md_fixture();
    let expected_output = expected_fixture();
    let man_nodes = parse_with_front_matter(markdown_input);
    let roff = render_document_now(&man_nodes);
    let actual = normalize(&roff);
    let expected = normalize(expected_output);
    assert_eq!(
        actual, expected,
        "Generated roff output did not match expected"
    );
}

fn md_fixture() -> &'static str {
    r#"---
name: mdman
section: 5
date: 2025-05-24
left-footer: mdman Format
center-footer: File Formats
---

# NAME

**`mdman`** - Markdown format specification for generating man pages

# DESCRIPTION

The **mdman** tool uses standard Markdown with a few conventions to generate man
pages. The expected input format includes:

- YAML frontmatter for metadata
- GitHub Flavored Markdown for content

# FRONTMATTER

Metadata at the top of the Markdown file must be formatted as a YAML block:


```yaml

---
name: mytool
section: 1
date: 2025-05-24
left-footer: MyTool Manual
center-footer: v1.0
---
```

Elements:
- *name* (required): Name of the man page
- *section* (required): Section number (1â€“8)
- *date* (optional): Date of last update
- *left-footer*, *center-footer* (optional): Header/footer strings

# SUPPORTED ELEMENTS

## Headings

*#* maps to *`.SH`* (section),
*##* maps to *`.SS`* (subsection)

## Paragraphs

Plain text separated by a blank line becomes a *`.PP`* paragraph.
Indented blocks or triple-backtick code blocks render as *`.EX`* / *`.EE`*.

## Emphasis

- `*italic*` â†’ `\\fI...\\fP` â†’ *italic*
- `**bold**` â†’ `\\fB...\\fP` â†’ **blod**
- `inline`   â†’ `\\fC`...`\\fP` â†’ `inline`

## Lists

Unordered lists use *`-`* and becoome *`.IP \\(bu`*.
Ordered lists use *`N.`* and become *`.IP N.`*, e.g.:

```markdown

- one
- two
    - sub 1
    - sub 2
- three
```

Resulting in:

- one
- two
    - sub 1
    - sub 2
- three

For ordered lists, you can also use the same number on all items, like so:

```markdown

1. fist
1. second
    1. sub first
    1. sub second
1. sub third
```

Result:

1. fist
1. second
    1. sub first
    1. sub second
1. sub third

## Thematic Break

Thematic breaks (`---`) mark the start and the end of a definition list, e.g.:

```markdown

# OPTIONS

---

- **-h**, **--help**
  Print help message

- **-v**, **--verbose**
  Enter verbose mode

---
```

becomes

---

- **-h**, **--help**
  Print help message

- **-v**, **--verbose**
  Enter verbose mode

---

## Tables

Tables are written using GitHub-Flavored Markdown syntax:

```markdown

| Column A | Column B | Column C |
|:-------- |:--------:| --------:|
| left     | center   | right    |
```

The result looks like this:

| Column A | Column B | Column C |
|:-------- |:--------:| --------:|
| left     | center   | right    |


Column alignments are respected:

- *`:---`*  = left-aligned

- *`:---:`* = center-aligned

- *`---:`*  = right-aligned

These are rendered using the roff *`.TS`*/*`.TE`* macros with allbox for boxed
tables. Each cell is wrapped in *`T{ ... T}`* for multi-line content.

Note:
- Tables must have a header row.
- Alignment rules apply to the second line of the Markdown table.
- Long cell content is supported but not automatically wrapped.

## Links

Markdown links in the form `[text](url)` are rendered using *`.UR`* / *`.UE`* blocks.
E.g.:

`[mdman on Github](https://github.com/matkrin/mdman)`

becomes

[mdman on Github](https://github.com/matkrin/mdman)

# SEE ALSO

mdman(1), markdown(7), man(7)
    "#
}

fn expected_fixture() -> &'static str {
    r#".TH "MDMAN" "5" "2025-05-24" "mdman Format" "File Formats"
.SH NAME
.PD
.PP
\fBmdman\fP \- Markdown format specification for generating man pages
.SH DESCRIPTION
.PD
.PP
The \fBmdman\fP tool uses standard Markdown with a few conventions to generate man
pages\&. The expected input format includes:

.RS 2
.PD 0
.IP \(bu 2
YAML frontmatter for metadata
.IP \(bu 2
GitHub Flavored Markdown for content

.RE
.SH FRONTMATTER
.PD
.PP
Metadata at the top of the Markdown file must be formatted as a YAML block:
.EX

---
name: mytool
section: 1
date: 2025-05-24
left-footer: MyTool Manual
center-footer: v1.0
---
.EE
.PD
.PP
Elements:

.RS 2
.PD 0
.IP \(bu 2
\fIname\fP (required): Name of the man page
.IP \(bu 2
\fIsection\fP (required): Section number (1â€“8)
.IP \(bu 2
\fIdate\fP (optional): Date of last update
.IP \(bu 2
\fIleft-footer\fP, \fIcenter-footer\fP (optional): Header/footer strings

.RE
.SH SUPPORTED ELEMENTS
.SS Headings
.PD
.PP
\fI#\fP maps to \fI.SH\fP (section),
\fI##\fP maps to \fI.SS\fP (subsection)
.SS Paragraphs
.PD
.PP
Plain text separated by a blank line becomes a \fI.PP\fP paragraph\&.
Indented blocks or triple\-backtick code blocks render as \fI.EX\fP / \fI.EE\fP\&.
.SS Emphasis

.RS 2
.PD 0
.IP \(bu 2
\fC*italic*\fP â†’ \fC\\fI...\\fP\fP â†’ \fIitalic\fP
.IP \(bu 2
\fC**bold**\fP â†’ \fC\\fB...\\fP\fP â†’ \fBblod\fP
.IP \(bu 2
\fCinline\fP   â†’ \fC\\fC\fP\&.\&.\&.\fC\\fP\fP â†’ \fCinline\fP

.RE
.SS Lists
.PD
.PP
Unordered lists use \fI-\fP and becoome \fI.IP \\(bu\fP\&.
Ordered lists use \fIN.\fP and become \fI.IP N.\fP, e\&.g\&.:
.EX

- one
- two
    - sub 1
    - sub 2
- three
.EE
.PD
.PP
Resulting in:

.RS 2
.PD 0
.IP \(bu 2
one
.IP \(bu 2
two
.RS 2
.PD 0
.IP \(bu 2
sub 1
.IP \(bu 2
sub 2

.RE

.IP \(bu 2
three

.RE
.PD
.PP
For ordered lists, you can also use the same number on all items, like so:
.EX

1. fist
1. second
    1. sub first
    1. sub second
1. sub third
.EE
.PD
.PP
Result:

.RS 2
.PD 0
.IP 1. 4
fist
.IP 2. 4
second
.RS 2
.PD 0
.IP 1. 4
sub first
.IP 2. 4
sub second

.RE

.IP 3. 4
sub third

.RE
.SS Thematic Break
.PD
.PP
Thematic breaks (\fC---\fP) mark the start and the end of a definition list, e\&.g\&.:
.EX

# OPTIONS

---

- **-h**, **--help**
  Print help message

- **-v**, **--verbose**
  Enter verbose mode

---
.EE
.PD
.PP
becomes
.TP
\fB-h\fP, \fB--help\fP
Print help message

.TP
\fB-v\fP, \fB--verbose\fP
Enter verbose mode

.SS Tables
.PD
.PP
Tables are written using GitHub\-Flavored Markdown syntax:
.EX

| Column A | Column B | Column C |
|:-------- |:--------:| --------:|
| left     | center   | right    |
.EE
.PD
.PP
The result looks like this:
.TS
allbox;
l c r.
T{
Column A
T}	T{
Column B
T}	T{
Column C
T}	
T{
left
T}	T{
center
T}	T{
right
T}	
.TE
.PD
.PP
Column alignments are respected:

.RS 2
.PD 0
.IP \(bu 2
\fI:---\fP  = left\-aligned
.IP \(bu 2
\fI:---:\fP = center\-aligned
.IP \(bu 2
\fI---:\fP  = right\-aligned

.RE
.PD
.PP
These are rendered using the roff \fI.TS\fP/\fI.TE\fP macros with allbox for boxed
tables\&. Each cell is wrapped in \fIT{ ... T}\fP for multi\-line content\&.
.PD
.PP
Note:

.RS 2
.PD 0
.IP \(bu 2
Tables must have a header row\&.
.IP \(bu 2
Alignment rules apply to the second line of the Markdown table\&.
.IP \(bu 2
Long cell content is supported but not automatically wrapped\&.

.RE
.SS Links
.PD
.PP
Markdown links in the form \fC[text](url)\fP are rendered using \fI.UR\fP / \fI.UE\fP blocks\&.
E\&.g\&.:
.PD
.PP
\fC[mdman on Github](https://github.com/matkrin/mdman)\fP
.PD
.PP
becomes
.PD
.PP

.UR https://github.com/matkrin/mdman
mdman on Github
.UE

.SH SEE ALSO
.PD
.PP
mdman(1), markdown(7), man(7)
    "#
}
