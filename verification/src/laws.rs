//! Laws of the pipeline, each stated over the spec functions that the
//! converter's and the emitter's contracts use, and proved once and for
//! all inputs.

use vstd::prelude::*;

use crate::man_node::ManNodeV;
use crate::man_node::TableAlign;
use crate::man_node::TitleLineV;
use crate::man_node::convert_node_spec;
use crate::man_node::convert_seq_spec;
use crate::md::MdNodeV;
use crate::roff::align_letter;
use crate::roff::align_letters;
use crate::roff::align_tail;
use crate::roff::bullet_items;
use crate::roff::dec_str;
use crate::roff::def_items;
use crate::roff::escape_char;
use crate::roff::escaped;
use crate::roff::lemma_escaped_at;
use crate::roff::numbered_items;
use crate::roff::roff_of;
use crate::roff::roff_seq;
use crate::roff::upper_of;

verus! {

/// A front-matter block converts to exactly one title line carrying
/// its metadata, and leaves the definition-list flag untouched; which
/// metadata a block's text yields, and when it is rejected instead, is
/// pinned by the contract of [`crate::front_matter::parse_front_matter`].
pub proof fn lemma_front_matter_title_line(t: TitleLineV, dl: bool)
    ensures
        convert_node_spec(MdNodeV::FrontMatter(t), dl).0 == seq![ManNodeV::TitleLine(t)],
        convert_node_spec(MdNodeV::FrontMatter(t), dl).0.len() == 1,
        convert_node_spec(MdNodeV::FrontMatter(t), dl).1 == dl,
{
}

/// An ordered source list converts to a numbered list whatever its
/// literal numeric marker and whatever the definition-list flag: the
/// marker `start` does not reach the output at all.
pub proof fn lemma_ordered_list_numbered(
    children: Seq<MdNodeV>,
    start1: Option<u32>,
    start2: Option<u32>,
    dl: bool,
)
    ensures
        convert_node_spec(MdNodeV::List { ordered: true, start: start1, children }, dl)
            == convert_node_spec(MdNodeV::List { ordered: true, start: start2, children }, dl),
        convert_node_spec(MdNodeV::List { ordered: true, start: start1, children }, dl).0 == seq![
            ManNodeV::NumberedList { children: convert_seq_spec(children, dl).0 },
        ],
{
}

/// Helper for the numbering law: the items of a numbered list starting
/// at `k` decompose around any position `i`, whose item carries the
/// number `k + i`.
pub proof fn lemma_numbered_items_at(s: Seq<ManNodeV>, today: Seq<char>, k: nat, i: int)
    requires
        0 <= i < s.len(),
    ensures
        numbered_items(s, today, k) == numbered_items(s.take(i), today, k) + (".IP "@ + dec_str(
            (k + i) as nat,
        ) + ". 4\n"@ + roff_of(s[i], today) + "\n"@) + numbered_items(
            s.skip(i + 1),
            today,
            (k + i + 1) as nat,
        ),
    decreases i,
{
    let block = ".IP "@ + dec_str((k + i) as nat) + ". 4\n"@ + roff_of(s[i], today) + "\n"@;
    if i == 0 {
        assert(s.take(0) =~= Seq::<ManNodeV>::empty());
        assert(s.skip(1) =~= s.drop_first());
        assert(numbered_items(s, today, k) == block + numbered_items(s.drop_first(), today, k + 1));
        assert(Seq::<char>::empty() + block =~= block);
    } else {
        lemma_numbered_items_at(s.drop_first(), today, k + 1, i - 1);
        assert(s.drop_first().take(i - 1) =~= s.take(i).drop_first());
        assert(s.drop_first()[i - 1] == s[i]);
        assert(s.drop_first().skip(i) =~= s.skip(i + 1));
        let head = ".IP "@ + dec_str(k) + ". 4\n"@ + roff_of(s[0], today) + "\n"@;
        assert(numbered_items(s, today, k) == head + numbered_items(s.drop_first(), today, k + 1));
        assert(s.take(i)[0] == s[0]);
        assert(numbered_items(s.take(i), today, k) == head + numbered_items(
            s.take(i).drop_first(),
            today,
            k + 1,
        ));
        assert(head + ((numbered_items(s.take(i).drop_first(), today, k + 1) + block)
            + numbered_items(s.skip(i + 1), today, (k + i + 1) as nat)) =~= ((head
            + numbered_items(s.take(i).drop_first(), today, k + 1)) + block) + numbered_items(
            s.skip(i + 1),
            today,
            (k + i + 1) as nat,
        ));
    }
}

/// The numbering law: in the emitted text of a numbered list of any
/// items, the item at position `i` (counting from zero) carries the
/// number `i + 1`, so the numbers read `1. 2. 3. ...` in document
/// order, whatever the source's markers said.
pub proof fn lemma_numbered_list_numbering(children: Seq<ManNodeV>, today: Seq<char>, i: int)
    requires
        0 <= i < children.len(),
    ensures
        roff_of(ManNodeV::NumberedList { children }, today) == "\n.RS 2\n.PD 0\n"@
            + numbered_items(children, today, 1) + "\n.RE\n"@,
        numbered_items(children, today, 1) == numbered_items(children.take(i), today, 1) + (".IP "@
            + dec_str((i + 1) as nat) + ". 4\n"@ + roff_of(children[i], today) + "\n"@)
            + numbered_items(children.skip(i + 1), today, (i + 2) as nat),
{
    lemma_numbered_items_at(children, today, 1, i);
}

/// The title-line law: the `.TH` line's first quoted field is the name
/// upper-cased, its date field is the supplied date verbatim, or
/// `today` when none was supplied, and an absent footer is omitted
/// entirely rather than emitted as empty quotes.
pub proof fn lemma_title_line(t: TitleLineV, today: Seq<char>)
    ensures
        ({
            let date_field = match t.date {
                Some(d) => d,
                None => today,
            };
            let lf_field = match t.left_footer {
                Some(lf) => " \""@ + lf + "\""@,
                None => Seq::<char>::empty(),
            };
            let cf_field = match t.center_footer {
                Some(cf) => " \""@ + cf + "\""@,
                None => Seq::<char>::empty(),
            };
            roff_of(ManNodeV::TitleLine(t), today) == ".TH \""@ + upper_of(t.name) + "\" \""@
                + dec_str(t.section as nat) + "\" \""@ + date_field + "\""@ + lf_field + cf_field
                + "\n"@
        }),
{
    let date_field = match t.date {
        Some(d) => d,
        None => today,
    };
    let head = ".TH \""@ + upper_of(t.name) + "\" \""@ + dec_str(t.section as nat) + "\" \""@
        + date_field + "\""@;
    let lf_field = match t.left_footer {
        Some(lf) => " \""@ + lf + "\""@,
        None => Seq::<char>::empty(),
    };
    let cf_field = match t.center_footer {
        Some(cf) => " \""@ + cf + "\""@,
        None => Seq::<char>::empty(),
    };
    let with_lf = match t.left_footer {
        Some(lf) => head + " \""@ + lf + "\""@,
        None => head,
    };
    let with_cf = match t.center_footer {
        Some(cf) => with_lf + " \""@ + cf + "\""@,
        None => with_lf,
    };
    assert(roff_of(ManNodeV::TitleLine(t), today) == with_cf + "\n"@);
    assert(with_lf =~= head + lf_field);
    assert(with_cf =~= (head + lf_field) + cf_field);
    assert(((head + lf_field) + cf_field) + "\n"@ =~= with_cf + "\n"@);
}

/// The escaping law, escaped side: the text of a plain `Text` leaf is
/// emitted with every occurrence of an escapable character replaced by
/// its roff-safe form, in place: around any position `i` the emitted
/// text decomposes into the escaped prefix, the escape form of the
/// character at `i`, and the escaped suffix.
pub proof fn lemma_text_escaped(text: Seq<char>, today: Seq<char>, i: int)
    requires
        0 <= i < text.len(),
    ensures
        roff_of(ManNodeV::Text(text), today) == escaped(text),
        escaped(text) == escaped(text.take(i)) + escape_char(text[i]) + escaped(text.skip(i + 1)),
{
    lemma_escaped_at(text, i);
}

/// The escaping law, unescaped side: the same characters inside a bold,
/// italic or inline-code run, or inside a code block, are emitted
/// verbatim, with no escaping.
pub proof fn lemma_formatted_runs_unescaped(text: Seq<char>, today: Seq<char>)
    ensures
        roff_of(ManNodeV::Bold(text), today) == "\\fB"@ + text + "\\fP"@,
        roff_of(ManNodeV::Italic(text), today) == "\\fI"@ + text + "\\fP"@,
        roff_of(ManNodeV::InlineCode(text), today) == "\\fC"@ + text + "\\fP"@,
        roff_of(ManNodeV::CodeBlock(text), today) == ".EX\n"@ + text + "\n.EE\n"@,
{
}

/// The definition-list law, converter side: an unordered list standing
/// between an odd thematic break and the following even one converts to
/// a definition list (provided its own items leave the flag standing),
/// and the region's two breaks cancel: the flag stands cleared after
/// it.
pub proof fn lemma_definition_list_region(children: Seq<MdNodeV>, start: Option<u32>)
    requires
        convert_seq_spec(children, true).1 == true,
    ensures
        ({
            let list = MdNodeV::List { ordered: false, start, children };
            let region = seq![MdNodeV::ThematicBreak, list, MdNodeV::ThematicBreak];
            convert_seq_spec(region, false).0 == seq![
                ManNodeV::DefinitionList { children: convert_seq_spec(children, true).0 },
            ] && convert_seq_spec(region, false).1 == false
        }),
{
    let list = MdNodeV::List { ordered: false, start, children };
    let region = seq![MdNodeV::ThematicBreak, list, MdNodeV::ThematicBreak];
    reveal_with_fuel(convert_seq_spec, 5);
    assert(region[0] == MdNodeV::ThematicBreak);
    assert(region.drop_first() =~= seq![list, MdNodeV::ThematicBreak]);
    assert(region.drop_first()[0] == list);
    assert(region.drop_first().drop_first() =~= seq![MdNodeV::ThematicBreak]);
    assert(seq![MdNodeV::ThematicBreak][0] == MdNodeV::ThematicBreak);
    assert(seq![MdNodeV::ThematicBreak].drop_first() =~= Seq::<MdNodeV>::empty());
    let items = convert_seq_spec(children, true).0;
    let d = seq![ManNodeV::DefinitionList { children: items }];
    assert(convert_node_spec(list, true).0 == d);
    assert(convert_seq_spec(region, false).0 =~= (Seq::<ManNodeV>::empty() + (d + (Seq::<
        ManNodeV,
    >::empty() + Seq::<ManNodeV>::empty()))));
    assert(Seq::<ManNodeV>::empty() + (d + (Seq::<ManNodeV>::empty() + Seq::<ManNodeV>::empty()))
        =~= d);
}

/// The definition-list law, outside a region: with the flag cleared, an
/// unordered list whose items leave the flag cleared converts to a
/// bullet list.
pub proof fn lemma_bullet_list_outside_region(children: Seq<MdNodeV>, start: Option<u32>)
    requires
        convert_seq_spec(children, false).1 == false,
    ensures
        convert_node_spec(MdNodeV::List { ordered: false, start, children }, false).0 == seq![
            ManNodeV::BulletList { children: convert_seq_spec(children, false).0 },
        ],
        convert_node_spec(MdNodeV::List { ordered: false, start, children }, false).1 == false,
{
}

/// The definition-list law, emitter side: every item of a definition
/// list renders under the `.TP` template — around any position `i` the
/// emitted text decomposes into the preceding items, `.TP`, the item,
/// a blank line, and the following items.
pub proof fn lemma_definition_list_template(s: Seq<ManNodeV>, today: Seq<char>, i: int)
    requires
        0 <= i < s.len(),
    ensures
        roff_of(ManNodeV::DefinitionList { children: s }, today) == def_items(s, today),
        def_items(s, today) == def_items(s.take(i), today) + (".TP\n"@ + roff_of(s[i], today)
            + "\n\n"@) + def_items(s.skip(i + 1), today),
    decreases i,
{
    let block = ".TP\n"@ + roff_of(s[i], today) + "\n\n"@;
    if i == 0 {
        assert(s.take(0) =~= Seq::<ManNodeV>::empty());
        assert(s.skip(1) =~= s.drop_first());
        assert(def_items(s, today) == block + def_items(s.drop_first(), today));
        assert(Seq::<char>::empty() + block =~= block);
    } else {
        lemma_definition_list_template(s.drop_first(), today, i - 1);
        assert(s.drop_first().take(i - 1) =~= s.take(i).drop_first());
        assert(s.drop_first()[i - 1] == s[i]);
        assert(s.drop_first().skip(i) =~= s.skip(i + 1));
        let head = ".TP\n"@ + roff_of(s[0], today) + "\n\n"@;
        assert(def_items(s, today) == head + def_items(s.drop_first(), today));
        assert(s.take(i)[0] == s[0]);
        assert(def_items(s.take(i), today) == head + def_items(s.take(i).drop_first(), today));
        assert(head + ((def_items(s.take(i).drop_first(), today) + block) + def_items(
            s.skip(i + 1),
            today,
        )) =~= ((head + def_items(s.take(i).drop_first(), today)) + block) + def_items(
            s.skip(i + 1),
            today,
        ));
    }
}

/// The definition-list law, emitter side, bullet counterpart: outside a
/// region every item of a bullet list renders under the `.IP \(bu 2`
/// template.
pub proof fn lemma_bullet_list_template(s: Seq<ManNodeV>, today: Seq<char>, i: int)
    requires
        0 <= i < s.len(),
    ensures
        roff_of(ManNodeV::BulletList { children: s }, today) == "\n.RS 2\n.PD 0\n"@ + bullet_items(
            s,
            today,
        ) + "\n.RE\n"@,
        bullet_items(s, today) == bullet_items(s.take(i), today) + (".IP \\(bu 2\n"@ + roff_of(
            s[i],
            today,
        ) + "\n"@) + bullet_items(s.skip(i + 1), today),
    decreases i,
{
    let block = ".IP \\(bu 2\n"@ + roff_of(s[i], today) + "\n"@;
    if i == 0 {
        assert(s.take(0) =~= Seq::<ManNodeV>::empty());
        assert(s.skip(1) =~= s.drop_first());
        assert(bullet_items(s, today) == block + bullet_items(s.drop_first(), today));
        assert(Seq::<char>::empty() + block =~= block);
    } else {
        lemma_bullet_list_template(s.drop_first(), today, i - 1);
        assert(s.drop_first().take(i - 1) =~= s.take(i).drop_first());
        assert(s.drop_first()[i - 1] == s[i]);
        assert(s.drop_first().skip(i) =~= s.skip(i + 1));
        let head = ".IP \\(bu 2\n"@ + roff_of(s[0], today) + "\n"@;
        assert(bullet_items(s, today) == head + bullet_items(s.drop_first(), today));
        assert(s.take(i)[0] == s[0]);
        assert(bullet_items(s.take(i), today) == head + bullet_items(
            s.take(i).drop_first(),
            today,
        ));
        assert(head + ((bullet_items(s.take(i).drop_first(), today) + block) + bullet_items(
            s.skip(i + 1),
            today,
        )) =~= ((head + bullet_items(s.take(i).drop_first(), today)) + block) + bullet_items(
            s.skip(i + 1),
            today,
        ));
    }
}

/// Helper for the alignment law: the shape of the joined letters after
/// the first column.
proof fn lemma_align_tail_shape(s: Seq<TableAlign>)
    ensures
        align_tail(s).len() == 2 * s.len(),
        forall|j: int|
            0 <= j < 2 * s.len() ==> #[trigger] align_tail(s)[j] == (if j % 2 == 0 {
                ' '
            } else {
                align_letter(s[j / 2])
            }),
    decreases s,
{
    if s.len() > 0 {
        lemma_align_tail_shape(s.drop_first());
        assert forall|j: int| 0 <= j < 2 * s.len() implies #[trigger] align_tail(s)[j] == (if j % 2
            == 0 {
            ' '
        } else {
            align_letter(s[j / 2])
        }) by {
            let t = seq![' ', align_letter(s[0])] + align_tail(s.drop_first());
            assert(align_tail(s) == t);
            if j >= 2 {
                assert(t[j] == align_tail(s.drop_first())[j - 2]);
                assert((j - 2) % 2 == j % 2);
                assert((j - 2) / 2 == j / 2 - 1);
                if j % 2 != 0 {
                    assert(s.drop_first()[j / 2 - 1] == s[j / 2]);
                }
            }
        }
    }
}

/// The alignment law: a table's column specification holds one letter
/// per column, joined by single spaces, and each column's letter is
/// determined by its alignment — `l` for left, `r` for right, `c` for
/// center, and `l` again where no alignment was given.
pub proof fn lemma_table_alignment(align: Seq<TableAlign>, children: Seq<ManNodeV>, today: Seq<
    char,
>)
    ensures
        roff_of(ManNodeV::Table { align, children }, today) == ".TS\nallbox;\n"@ + align_letters(
            align,
        ) + ".\n"@ + roff_seq(children, today) + ".TE\n"@,
        align.len() == 0 ==> align_letters(align).len() == 0,
        align.len() > 0 ==> align_letters(align).len() == 2 * align.len() - 1,
        forall|j: int|
            0 <= j < align_letters(align).len() ==> #[trigger] align_letters(align)[j] == (if j % 2
                == 0 {
                align_letter(align[j / 2])
            } else {
                ' '
            }),
{
    if align.len() > 0 {
        lemma_align_tail_shape(align.drop_first());
        assert forall|j: int| 0 <= j < align_letters(align).len() implies #[trigger] align_letters(
            align,
        )[j] == (if j % 2 == 0 {
            align_letter(align[j / 2])
        } else {
            ' '
        }) by {
            let t = seq![align_letter(align[0])] + align_tail(align.drop_first());
            assert(align_letters(align) == t);
            if j >= 1 {
                assert(t[j] == align_tail(align.drop_first())[j - 1]);
                assert((j - 1) % 2 == 0 <==> j % 2 != 0);
                if j % 2 == 0 {
                    assert((j - 1) / 2 == j / 2 - 1);
                    assert(align.drop_first()[j / 2 - 1] == align[j / 2]);
                }
            }
        }
    }
}

/// The alignment law, converter side: a table's alignment is copied
/// column for column from the source table, unchanged.
pub proof fn lemma_table_alignment_copied(
    align: Seq<TableAlign>,
    children: Seq<MdNodeV>,
    dl: bool,
)
    ensures
        convert_node_spec(MdNodeV::Table { align, children }, dl).0 == seq![
            ManNodeV::Table { align, children: convert_seq_spec(children, dl).0 },
        ],
{
}

} // verus!
