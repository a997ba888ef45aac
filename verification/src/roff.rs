//! The emitter: serializes the man-document tree into literal roff
//! text.  Emission is a pure, context-free function per node; the full
//! document is the concatenation over the top-level node sequence.
//! Byte-for-byte stability of the output is the contract: macro names,
//! whitespace, numbering and escape sequences are all stated exactly.

use vstd::prelude::*;
use vstd::string::StrSliceExecFns;
use vstd::string::StringExecFns;

use crate::man_node::ManNode;
use crate::man_node::ManNodeV;
use crate::man_node::TableAlign;
use crate::man_node::TitleLine;
use crate::man_node::TitleLineV;
use crate::man_node::man_seq_view;
use crate::man_node::lemma_man_seq_view;

verus! {

pub assume_specification[ String::push ](s: &mut String, ch: char)
    ensures
        final(s)@ == old(s)@.push(ch),
;

/// The roff-safe spelling of one character of plain prose text, per the
/// escaping table: backslash, period, apostrophe, double quote, hyphen,
/// tilde, vertical bar and percent get escape forms; every other
/// character stands for itself.
pub open spec fn escape_char(c: char) -> Seq<char> {
    if c == '\\' {
        seq!['\\', '\\']
    } else if c == '.' {
        seq!['\\', '&', '.']
    } else if c == '\'' {
        seq!['\\', '&', '\'']
    } else if c == '"' {
        seq!['\\', '&', '"']
    } else if c == '-' {
        seq!['\\', '-']
    } else if c == '~' {
        seq!['\\', '(', 't', 'i']
    } else if c == '|' {
        seq!['\\', '(', 'b', 'a']
    } else if c == '%' {
        seq!['\\', '%']
    } else {
        seq![c]
    }
}

/// A text with every character replaced by its roff-safe spelling, in
/// order.
pub open spec fn escaped(s: Seq<char>) -> Seq<char>
    decreases s,
{
    if s.len() == 0 {
        Seq::empty()
    } else {
        escape_char(s[0]) + escaped(s.drop_first())
    }
}

pub proof fn lemma_escaped_snoc(s: Seq<char>, x: char)
    ensures
        escaped(s.push(x)) == escaped(s) + escape_char(x),
    decreases s,
{
    if s.len() == 0 {
        reveal_with_fuel(escaped, 3);
        assert(s.push(x)[0] == x);
        assert(s.push(x).drop_first() =~= s);
        assert(Seq::<char>::empty() + escape_char(x) =~= escape_char(x) + Seq::<char>::empty());
    } else {
        assert(s.push(x)[0] == s[0]);
        assert(s.push(x).drop_first() =~= s.drop_first().push(x));
        lemma_escaped_snoc(s.drop_first(), x);
        assert(escape_char(s[0]) + (escaped(s.drop_first()) + escape_char(x)) =~= (escape_char(
            s[0],
        ) + escaped(s.drop_first())) + escape_char(x));
    }
}

/// Every occurrence of an escapable character is escaped, in place: the
/// escaped text decomposes around any position `i` of the source text.
pub proof fn lemma_escaped_at(s: Seq<char>, i: int)
    requires
        0 <= i < s.len(),
    ensures
        escaped(s) == escaped(s.take(i)) + escape_char(s[i]) + escaped(s.skip(i + 1)),
    decreases i,
{
    if i == 0 {
        assert(s.take(0) =~= Seq::<char>::empty());
        assert(s.skip(1) =~= s.drop_first());
        assert(escaped(s) == escape_char(s[0]) + escaped(s.drop_first()));
        assert(Seq::<char>::empty() + escape_char(s[0]) =~= escape_char(s[0]));
    } else {
        lemma_escaped_at(s.drop_first(), i - 1);
        assert(s.drop_first().take(i - 1) =~= s.take(i).drop_first());
        assert(s.drop_first()[i - 1] == s[i]);
        assert(s.drop_first().skip(i) =~= s.skip(i + 1));
        assert(escaped(s) == escape_char(s[0]) + escaped(s.drop_first()));
        assert(escaped(s.take(i)) == escape_char(s.take(i)[0]) + escaped(s.take(i).drop_first()));
        assert(s.take(i)[0] == s[0]);
        assert(escape_char(s[0]) + ((escaped(s.take(i).drop_first()) + escape_char(s[i])) + escaped(
            s.skip(i + 1),
        )) =~= ((escape_char(s[0]) + escaped(s.take(i).drop_first())) + escape_char(s[i]))
            + escaped(s.skip(i + 1)));
    }
}

/// Replaces, in order, every escapable character of `text` by its
/// roff-safe spelling, exactly as [`escaped`] states.
pub fn escape(text: &str) -> (r: String)
    ensures
        r@ == escaped(text@),
{
    let n = text.unicode_len();
    let mut r = String::new();
    let mut i: usize = 0;
    while i < n
        invariant
            i <= n,
            n == text@.len(),
            r@ == escaped(text@.take(i as int)),
        decreases n - i,
    {
        let c = text.get_char(i);
        if c == '\\' {
            r.append("\\\\");
            proof {
                reveal_strlit("\\\\");
                assert("\\\\"@ =~= escape_char(c));
            }
        } else if c == '.' {
            r.append("\\&.");
            proof {
                reveal_strlit("\\&.");
                assert("\\&."@ =~= escape_char(c));
            }
        } else if c == '\'' {
            r.append("\\&'");
            proof {
                reveal_strlit("\\&'");
                assert("\\&'"@ =~= escape_char(c));
            }
        } else if c == '"' {
            r.append("\\&\"");
            proof {
                reveal_strlit("\\&\"");
                assert("\\&\""@ =~= escape_char(c));
            }
        } else if c == '-' {
            r.append("\\-");
            proof {
                reveal_strlit("\\-");
                assert("\\-"@ =~= escape_char(c));
            }
        } else if c == '~' {
            r.append("\\(ti");
            proof {
                reveal_strlit("\\(ti");
                assert("\\(ti"@ =~= escape_char(c));
            }
        } else if c == '|' {
            r.append("\\(ba");
            proof {
                reveal_strlit("\\(ba");
                assert("\\(ba"@ =~= escape_char(c));
            }
        } else if c == '%' {
            r.append("\\%");
            proof {
                reveal_strlit("\\%");
                assert("\\%"@ =~= escape_char(c));
            }
        } else {
            r.push(c);
            proof {
                assert(escaped(text@.take(i as int)).push(c) =~= escaped(text@.take(i as int))
                    + escape_char(c));
            }
        }
        proof {
            lemma_escaped_snoc(text@.take(i as int), c);
            assert(text@.take(i + 1) =~= text@.take(i as int).push(c));
        }
        i = i + 1;
    }
    proof {
        assert(text@.take(n as int) =~= text@);
    }
    r
}

/// The decimal digit character for `d`.
pub open spec fn digit_char(d: nat) -> char {
    if d == 0 {
        '0'
    } else if d == 1 {
        '1'
    } else if d == 2 {
        '2'
    } else if d == 3 {
        '3'
    } else if d == 4 {
        '4'
    } else if d == 5 {
        '5'
    } else if d == 6 {
        '6'
    } else if d == 7 {
        '7'
    } else if d == 8 {
        '8'
    } else {
        '9'
    }
}

/// The decimal spelling of `n`, most significant digit first, without
/// leading zeros (a single `0` for zero).
pub open spec fn dec_str(n: nat) -> Seq<char>
    decreases n,
{
    if n < 10 {
        seq![digit_char(n)]
    } else {
        dec_str(n / 10).push(digit_char(n % 10))
    }
}

/// One decimal digit as text.
fn digit_str(d: u64) -> (r: &'static str)
    requires
        d < 10,
    ensures
        r@ == seq![digit_char(d as nat)],
{
    if d == 0 {
        let s = "0";
        proof {
            reveal_strlit("0");
            assert(s@ =~= seq!['0']);
        }
        s
    } else if d == 1 {
        let s = "1";
        proof {
            reveal_strlit("1");
            assert(s@ =~= seq!['1']);
        }
        s
    } else if d == 2 {
        let s = "2";
        proof {
            reveal_strlit("2");
            assert(s@ =~= seq!['2']);
        }
        s
    } else if d == 3 {
        let s = "3";
        proof {
            reveal_strlit("3");
            assert(s@ =~= seq!['3']);
        }
        s
    } else if d == 4 {
        let s = "4";
        proof {
            reveal_strlit("4");
            assert(s@ =~= seq!['4']);
        }
        s
    } else if d == 5 {
        let s = "5";
        proof {
            reveal_strlit("5");
            assert(s@ =~= seq!['5']);
        }
        s
    } else if d == 6 {
        let s = "6";
        proof {
            reveal_strlit("6");
            assert(s@ =~= seq!['6']);
        }
        s
    } else if d == 7 {
        let s = "7";
        proof {
            reveal_strlit("7");
            assert(s@ =~= seq!['7']);
        }
        s
    } else if d == 8 {
        let s = "8";
        proof {
            reveal_strlit("8");
            assert(s@ =~= seq!['8']);
        }
        s
    } else {
        let s = "9";
        proof {
            reveal_strlit("9");
            assert(s@ =~= seq!['9']);
        }
        s
    }
}

/// The decimal spelling of `n`, exactly as [`dec_str`] states.
pub fn u64_to_string(n: u64) -> (r: String)
    ensures
        r@ == dec_str(n as nat),
    decreases n,
{
    if n < 10 {
        digit_str(n).to_owned()
    } else {
        let mut r = u64_to_string(n / 10);
        r.append(digit_str(n % 10));
        proof {
            assert(dec_str((n / 10) as nat) + seq![digit_char((n % 10) as nat)] =~= dec_str(
                (n / 10) as nat,
            ).push(digit_char((n % 10) as nat)));
        }
        r
    }
}

/// What str::to_uppercase returns: a function of the characters of its
/// argument alone.
pub uninterp spec fn upper_of(s: Seq<char>) -> Seq<char>;

/// Relies on str::to_uppercase: the uppercase equivalent of the string,
/// depending on its characters alone; an empty string stays empty.
#[verifier::external_body]
fn to_uppercase(s: &str) -> (r: String)
    ensures
        r@ == upper_of(s@),
        s@.len() == 0 ==> r@.len() == 0,
{
    s.to_uppercase()
}

/// Relies on jiff's Zoned::now and strftime: the current date in the
/// system time zone, rendered as year, month and day separated by
/// hyphens.  The result depends on the clock and the environment, so
/// nothing is stated of it.  Zoned::now does not return when the system
/// clock stands outside jiff's representable range.
#[verifier::external_body]
fn today_string() -> (r: String) {
    jiff::Zoned::now().strftime("%Y-%m-%d").to_string()
}

/// The alignment letter of one table column: `l`, `r` or `c`, with an
/// unspecified alignment rendered as `l`.
pub open spec fn align_letter(a: TableAlign) -> char {
    match a {
        TableAlign::Left => 'l',
        TableAlign::Right => 'r',
        TableAlign::Center => 'c',
        TableAlign::Unspecified => 'l',
    }
}

/// The alignment letters of every column after the first, each preceded
/// by one space.
pub open spec fn align_tail(s: Seq<TableAlign>) -> Seq<char>
    decreases s,
{
    if s.len() == 0 {
        Seq::empty()
    } else {
        seq![' ', align_letter(s[0])] + align_tail(s.drop_first())
    }
}

/// The alignment letters of a table's columns, joined by single spaces.
pub open spec fn align_letters(s: Seq<TableAlign>) -> Seq<char> {
    if s.len() == 0 {
        Seq::empty()
    } else {
        seq![align_letter(s[0])] + align_tail(s.drop_first())
    }
}

pub proof fn lemma_align_tail_snoc(s: Seq<TableAlign>, x: TableAlign)
    ensures
        align_tail(s.push(x)) == align_tail(s) + seq![' ', align_letter(x)],
    decreases s,
{
    if s.len() == 0 {
        reveal_with_fuel(align_tail, 3);
        assert(s.push(x)[0] == x);
        assert(s.push(x).drop_first() =~= s);
        assert(Seq::<char>::empty() + seq![' ', align_letter(x)] =~= seq![
            ' ',
            align_letter(x),
        ] + Seq::<char>::empty());
    } else {
        assert(s.push(x)[0] == s[0]);
        assert(s.push(x).drop_first() =~= s.drop_first().push(x));
        lemma_align_tail_snoc(s.drop_first(), x);
        assert(seq![' ', align_letter(s[0])] + (align_tail(s.drop_first()) + seq![
            ' ',
            align_letter(x),
        ]) =~= (seq![' ', align_letter(s[0])] + align_tail(s.drop_first())) + seq![
            ' ',
            align_letter(x),
        ]);
    }
}

/// The title line's roff text: the `.TH` macro with the upper-cased
/// name, the section number, the date (or `today` when none is given),
/// and each footer only when present.
pub open spec fn title_line_text(t: TitleLineV, today: Seq<char>) -> Seq<char> {
    let head = ".TH \""@ + upper_of(t.name) + "\" \""@ + dec_str(t.section as nat) + "\" \""@ + (
    match t.date {
        Some(d) => d,
        None => today,
    }) + "\""@;
    let with_lf = match t.left_footer {
        Some(lf) => head + " \""@ + lf + "\""@,
        None => head,
    };
    let with_cf = match t.center_footer {
        Some(cf) => with_lf + " \""@ + cf + "\""@,
        None => with_lf,
    };
    with_cf + "\n"@
}

/// The roff text of one man-document node, with `today` standing in for
/// the current date.  This is the emitter's contract, template for
/// template.
pub open spec fn roff_of(n: ManNodeV, today: Seq<char>) -> Seq<char>
    decreases n,
{
    match n {
        ManNodeV::TitleLine(t) => title_line_text(t, today),
        ManNodeV::SectionHeading { title, children } => ".SH "@ + title + "\n"@ + roff_seq(
            children,
            today,
        ),
        ManNodeV::SubsectionHeading { title, children } => ".SS "@ + title + "\n"@ + roff_seq(
            children,
            today,
        ),
        ManNodeV::Paragraph { children } => ".PD\n.PP\n"@ + roff_seq(children, today) + "\n"@,
        ManNodeV::Bold(text) => "\\fB"@ + text + "\\fP"@,
        ManNodeV::Italic(text) => "\\fI"@ + text + "\\fP"@,
        ManNodeV::InlineCode(text) => "\\fC"@ + text + "\\fP"@,
        ManNodeV::CodeBlock(text) => ".EX\n"@ + text + "\n.EE\n"@,
        ManNodeV::Text(text) => escaped(text),
        ManNodeV::BulletList { children } => "\n.RS 2\n.PD 0\n"@ + bullet_items(children, today)
            + "\n.RE\n"@,
        ManNodeV::NumberedList { children } => "\n.RS 2\n.PD 0\n"@ + numbered_items(
            children,
            today,
            1,
        ) + "\n.RE\n"@,
        ManNodeV::ListItem { children } => roff_seq(children, today),
        ManNodeV::Uri { url, title, children } => "\n.UR "@ + url + "\n"@ + roff_seq(
            children,
            today,
        ) + "\n.UE\n"@,
        ManNodeV::Table { align, children } => ".TS\nallbox;\n"@ + align_letters(align) + ".\n"@
            + roff_seq(children, today) + ".TE\n"@,
        ManNodeV::TableRow(children) => roff_seq(children, today) + "\n"@,
        ManNodeV::TableCell(children) => "T{\n"@ + roff_seq(children, today) + "\nT}\t"@,
        ManNodeV::DefinitionList { children } => def_items(children, today),
    }
}

/// The roff text of a sequence of nodes: the concatenation of each
/// node's text.
pub open spec fn roff_seq(s: Seq<ManNodeV>, today: Seq<char>) -> Seq<char>
    decreases s,
{
    if s.len() == 0 {
        Seq::empty()
    } else {
        roff_of(s[0], today) + roff_seq(s.drop_first(), today)
    }
}

/// The items of a bullet list, each under an `.IP \(bu 2` tag.
pub open spec fn bullet_items(s: Seq<ManNodeV>, today: Seq<char>) -> Seq<char>
    decreases s,
{
    if s.len() == 0 {
        Seq::empty()
    } else {
        (".IP \\(bu 2\n"@ + roff_of(s[0], today) + "\n"@) + bullet_items(s.drop_first(), today)
    }
}

/// The items of a numbered list, numbered `k`, `k + 1`, ... in order,
/// each under an `.IP {number}. 4` tag.
pub open spec fn numbered_items(s: Seq<ManNodeV>, today: Seq<char>, k: nat) -> Seq<char>
    decreases s,
{
    if s.len() == 0 {
        Seq::empty()
    } else {
        (".IP "@ + dec_str(k) + ". 4\n"@ + roff_of(s[0], today) + "\n"@) + numbered_items(
            s.drop_first(),
            today,
            k + 1,
        )
    }
}

/// The items of a definition list, each under a `.TP` tag and followed
/// by a blank line.
pub open spec fn def_items(s: Seq<ManNodeV>, today: Seq<char>) -> Seq<char>
    decreases s,
{
    if s.len() == 0 {
        Seq::empty()
    } else {
        (".TP\n"@ + roff_of(s[0], today) + "\n\n"@) + def_items(s.drop_first(), today)
    }
}

pub proof fn lemma_roff_seq_snoc(s: Seq<ManNodeV>, x: ManNodeV, today: Seq<char>)
    ensures
        roff_seq(s.push(x), today) == roff_seq(s, today) + roff_of(x, today),
    decreases s,
{
    if s.len() == 0 {
        reveal_with_fuel(roff_seq, 3);
        assert(s.push(x)[0] == x);
        assert(s.push(x).drop_first() =~= s);
        assert(Seq::<char>::empty() + roff_of(x, today) =~= roff_of(x, today) + Seq::<
            char,
        >::empty());
    } else {
        assert(s.push(x)[0] == s[0]);
        assert(s.push(x).drop_first() =~= s.drop_first().push(x));
        lemma_roff_seq_snoc(s.drop_first(), x, today);
        assert(roff_of(s[0], today) + (roff_seq(s.drop_first(), today) + roff_of(x, today)) =~= (
        roff_of(s[0], today) + roff_seq(s.drop_first(), today)) + roff_of(x, today));
    }
}

pub proof fn lemma_bullet_snoc(s: Seq<ManNodeV>, x: ManNodeV, today: Seq<char>)
    ensures
        bullet_items(s.push(x), today) == bullet_items(s, today) + (".IP \\(bu 2\n"@ + roff_of(
            x,
            today,
        ) + "\n"@),
    decreases s,
{
    if s.len() == 0 {
        reveal_with_fuel(bullet_items, 3);
        assert(s.push(x)[0] == x);
        assert(s.push(x).drop_first() =~= s);
        assert(Seq::<char>::empty() + (".IP \\(bu 2\n"@ + roff_of(x, today) + "\n"@) =~= (
        ".IP \\(bu 2\n"@ + roff_of(x, today) + "\n"@) + Seq::<char>::empty());
    } else {
        assert(s.push(x)[0] == s[0]);
        assert(s.push(x).drop_first() =~= s.drop_first().push(x));
        lemma_bullet_snoc(s.drop_first(), x, today);
        assert((".IP \\(bu 2\n"@ + roff_of(s[0], today) + "\n"@) + (bullet_items(
            s.drop_first(),
            today,
        ) + (".IP \\(bu 2\n"@ + roff_of(x, today) + "\n"@)) =~= ((".IP \\(bu 2\n"@ + roff_of(
            s[0],
            today,
        ) + "\n"@) + bullet_items(s.drop_first(), today)) + (".IP \\(bu 2\n"@ + roff_of(x, today)
            + "\n"@));
    }
}

pub proof fn lemma_numbered_snoc(s: Seq<ManNodeV>, x: ManNodeV, today: Seq<char>, k: nat)
    ensures
        numbered_items(s.push(x), today, k) == numbered_items(s, today, k) + (".IP "@ + dec_str(
            (k + s.len()) as nat,
        ) + ". 4\n"@ + roff_of(x, today) + "\n"@),
    decreases s,
{
    if s.len() == 0 {
        reveal_with_fuel(numbered_items, 3);
        assert(s.push(x)[0] == x);
        assert(s.push(x).drop_first() =~= s);
        assert(Seq::<char>::empty() + (".IP "@ + dec_str(k) + ". 4\n"@ + roff_of(x, today) + "\n"@)
            =~= (".IP "@ + dec_str(k) + ". 4\n"@ + roff_of(x, today) + "\n"@) + Seq::<
            char,
        >::empty());
    } else {
        assert(s.push(x)[0] == s[0]);
        assert(s.push(x).drop_first() =~= s.drop_first().push(x));
        lemma_numbered_snoc(s.drop_first(), x, today, k + 1);
        assert((k + 1 + s.drop_first().len()) as nat == (k + s.len()) as nat);
        assert((".IP "@ + dec_str(k) + ". 4\n"@ + roff_of(s[0], today) + "\n"@) + (numbered_items(
            s.drop_first(),
            today,
            k + 1,
        ) + (".IP "@ + dec_str((k + s.len()) as nat) + ". 4\n"@ + roff_of(x, today) + "\n"@)) =~= ((
        ".IP "@ + dec_str(k) + ". 4\n"@ + roff_of(s[0], today) + "\n"@) + numbered_items(
            s.drop_first(),
            today,
            k + 1,
        )) + (".IP "@ + dec_str((k + s.len()) as nat) + ". 4\n"@ + roff_of(x, today) + "\n"@));
    }
}

/// The alignment letter of one column.
fn align_letter_char(a: TableAlign) -> (c: char)
    ensures
        c == align_letter(a),
{
    match a {
        TableAlign::Left => 'l',
        TableAlign::Right => 'r',
        TableAlign::Center => 'c',
        TableAlign::Unspecified => 'l',
    }
}

/// The alignment letters of a table's columns, joined by single spaces.
fn align_letters_roff(align: &Vec<TableAlign>) -> (r: String)
    ensures
        r@ == align_letters(align@),
{
    let mut r = String::new();
    if align.len() == 0 {
        return r;
    }
    r.push(align_letter_char(align[0]));
    proof {
        assert(Seq::<char>::empty().push(align_letter(align@[0])) =~= seq![
            align_letter(align@[0]),
        ]);
        assert(align@.subrange(1, 1) =~= Seq::<TableAlign>::empty());
        assert(seq![align_letter(align@[0])] + Seq::<char>::empty() =~= seq![
            align_letter(align@[0]),
        ]);
    }
    let mut i: usize = 1;
    while i < align.len()
        invariant
            1 <= i <= align@.len(),
            r@ == seq![align_letter(align@[0])] + align_tail(align@.subrange(1, i as int)),
        decreases align.len() - i,
    {
        r.push(' ');
        r.push(align_letter_char(align[i]));
        proof {
            lemma_align_tail_snoc(align@.subrange(1, i as int), align@[i as int]);
            assert(align@.subrange(1, i + 1) =~= align@.subrange(1, i as int).push(
                align@[i as int],
            ));
            assert(((seq![align_letter(align@[0])] + align_tail(align@.subrange(1, i as int))).push(
                ' ',
            )).push(align_letter(align@[i as int])) =~= seq![align_letter(align@[0])] + (
            align_tail(align@.subrange(1, i as int)) + seq![' ', align_letter(align@[i as int])]));
        }
        i = i + 1;
    }
    proof {
        assert(align@.subrange(1, align@.len() as int) =~= align@.drop_first());
    }
    r
}

/// The `.TH` line of the title metadata, as [`title_line_text`] states.
fn title_line_roff(t: &TitleLine, today: &str) -> (r: String)
    ensures
        r@ == title_line_text(t@, today@),
{
    let mut r = ".TH \"".to_owned();
    let upper = to_uppercase(t.name.as_str());
    r.append(upper.as_str());
    r.append("\" \"");
    let sec = u64_to_string(t.section as u64);
    r.append(sec.as_str());
    r.append("\" \"");
    match &t.date {
        Some(d) => r.append(d.as_str()),
        None => r.append(today),
    }
    r.append("\"");
    match &t.left_footer {
        Some(lf) => {
            r.append(" \"");
            r.append(lf.as_str());
            r.append("\"");
        },
        None => {},
    }
    match &t.center_footer {
        Some(cf) => {
            r.append(" \"");
            r.append(cf.as_str());
            r.append("\"");
        },
        None => {},
    }
    r.append("\n");
    r
}

impl ManNode {
    /// The roff text of this node, `today` standing in for the current
    /// date wherever a title line carries none; exactly what
    /// [`roff_of`] states.
    pub fn to_roff_with_today(&self, today: &str) -> (r: String)
        ensures
            r@ == roff_of(self@, today@),
        decreases self,
    {
        match self {
            ManNode::TitleLine(t) => title_line_roff(t, today),
            ManNode::SectionHeading { title, children } => {
                let mut r = ".SH ".to_owned();
                r.append(title.as_str());
                r.append("\n");
                let body = render_document(children, today);
                r.append(body.as_str());
                r
            },
            ManNode::SubsectionHeading { title, children } => {
                let mut r = ".SS ".to_owned();
                r.append(title.as_str());
                r.append("\n");
                let body = render_document(children, today);
                r.append(body.as_str());
                r
            },
            ManNode::Paragraph { children } => {
                let mut r = ".PD\n.PP\n".to_owned();
                let body = render_document(children, today);
                r.append(body.as_str());
                r.append("\n");
                r
            },
            ManNode::Bold(text) => {
                let mut r = "\\fB".to_owned();
                r.append(text.as_str());
                r.append("\\fP");
                r
            },
            ManNode::Italic(text) => {
                let mut r = "\\fI".to_owned();
                r.append(text.as_str());
                r.append("\\fP");
                r
            },
            ManNode::InlineCode(text) => {
                let mut r = "\\fC".to_owned();
                r.append(text.as_str());
                r.append("\\fP");
                r
            },
            ManNode::CodeBlock(text) => {
                let mut r = ".EX\n".to_owned();
                r.append(text.as_str());
                r.append("\n.EE\n");
                r
            },
            ManNode::Text(text) => escape(text.as_str()),
            ManNode::BulletList { children } => {
                let mut r = "\n.RS 2\n.PD 0\n".to_owned();
                let body = bullet_items_roff(children, today);
                r.append(body.as_str());
                r.append("\n.RE\n");
                r
            },
            ManNode::NumberedList { children } => {
                let mut r = "\n.RS 2\n.PD 0\n".to_owned();
                let body = numbered_items_roff(children, today);
                r.append(body.as_str());
                r.append("\n.RE\n");
                r
            },
            ManNode::ListItem { children } => render_document(children, today),
            ManNode::Uri { url, title: _, children } => {
                let mut r = "\n.UR ".to_owned();
                r.append(url.as_str());
                r.append("\n");
                let body = render_document(children, today);
                r.append(body.as_str());
                r.append("\n.UE\n");
                r
            },
            ManNode::Table { align, children } => {
                let mut r = ".TS\nallbox;\n".to_owned();
                let letters = align_letters_roff(align);
                r.append(letters.as_str());
                r.append(".\n");
                let body = render_document(children, today);
                r.append(body.as_str());
                r.append(".TE\n");
                r
            },
            ManNode::TableRow(children) => {
                let mut r = render_document(children, today);
                r.append("\n");
                r
            },
            ManNode::TableCell(children) => {
                let mut r = "T{\n".to_owned();
                let body = render_document(children, today);
                r.append(body.as_str());
                r.append("\nT}\t");
                r
            },
            ManNode::DefinitionList { children } => def_items_roff(children, today),
        }
    }
}

/// The roff text of a document: the concatenation of each node's text,
/// `today` standing in for the current date wherever a title line
/// carries none.
pub fn render_document(nodes: &Vec<ManNode>, today: &str) -> (r: String)
    ensures
        r@ == roff_seq(man_seq_view(nodes@), today@),
    decreases nodes@,
{
    let ghost views = man_seq_view(nodes@);
    let mut r = String::new();
    let mut i: usize = 0;
    proof {
        lemma_man_seq_view(nodes@);
    }
    while i < nodes.len()
        invariant
            i <= nodes.len(),
            views == man_seq_view(nodes@),
            views.len() == nodes@.len(),
            forall|j: int| 0 <= j < nodes@.len() ==> views[j] == #[trigger] nodes@[j]@,
            r@ == roff_seq(views.take(i as int), today@),
        decreases nodes.len() - i,
    {
        let part = nodes[i].to_roff_with_today(today);
        r.append(part.as_str());
        proof {
            lemma_roff_seq_snoc(views.take(i as int), views[i as int], today@);
            assert(views.take(i + 1) =~= views.take(i as int).push(views[i as int]));
        }
        i = i + 1;
    }
    proof {
        assert(views.take(nodes@.len() as int) =~= views);
    }
    r
}

/// The items of a bullet list, as [`bullet_items`] states.
fn bullet_items_roff(children: &Vec<ManNode>, today: &str) -> (r: String)
    ensures
        r@ == bullet_items(man_seq_view(children@), today@),
    decreases children@,
{
    let ghost views = man_seq_view(children@);
    let mut r = String::new();
    let mut i: usize = 0;
    proof {
        lemma_man_seq_view(children@);
    }
    while i < children.len()
        invariant
            i <= children.len(),
            views == man_seq_view(children@),
            views.len() == children@.len(),
            forall|j: int| 0 <= j < children@.len() ==> views[j] == #[trigger] children@[j]@,
            r@ == bullet_items(views.take(i as int), today@),
        decreases children.len() - i,
    {
        let ghost pre = r@;
        r.append(".IP \\(bu 2\n");
        let part = children[i].to_roff_with_today(today);
        r.append(part.as_str());
        r.append("\n");
        proof {
            lemma_bullet_snoc(views.take(i as int), views[i as int], today@);
            assert(views.take(i + 1) =~= views.take(i as int).push(views[i as int]));
            assert(((pre + ".IP \\(bu 2\n"@) + part@) + "\n"@ =~= pre + (".IP \\(bu 2\n"@ + part@
                + "\n"@));
        }
        i = i + 1;
    }
    proof {
        assert(views.take(children@.len() as int) =~= views);
    }
    r
}

/// The items of a numbered list, numbered from one, as
/// [`numbered_items`] states.
fn numbered_items_roff(children: &Vec<ManNode>, today: &str) -> (r: String)
    ensures
        r@ == numbered_items(man_seq_view(children@), today@, 1),
    decreases children@,
{
    let ghost views = man_seq_view(children@);
    let mut r = String::new();
    let mut i: usize = 0;
    proof {
        lemma_man_seq_view(children@);
    }
    while i < children.len()
        invariant
            i <= children.len(),
            views == man_seq_view(children@),
            views.len() == children@.len(),
            forall|j: int| 0 <= j < children@.len() ==> views[j] == #[trigger] children@[j]@,
            r@ == numbered_items(views.take(i as int), today@, 1),
        decreases children.len() - i,
    {
        let ghost pre = r@;
        r.append(".IP ");
        let num = u64_to_string((i as u64) + 1);
        r.append(num.as_str());
        r.append(". 4\n");
        let part = children[i].to_roff_with_today(today);
        r.append(part.as_str());
        r.append("\n");
        proof {
            lemma_numbered_snoc(views.take(i as int), views[i as int], today@, 1);
            assert((1 + views.take(i as int).len()) as nat == (i + 1) as nat);
            assert(((((pre + ".IP "@) + num@) + ". 4\n"@) + part@) + "\n"@ =~= pre + (".IP "@
                + num@ + ". 4\n"@ + part@ + "\n"@));
            assert(views.take(i + 1) =~= views.take(i as int).push(views[i as int]));
        }
        i = i + 1;
    }
    proof {
        assert(views.take(children@.len() as int) =~= views);
    }
    r
}

/// The items of a definition list, as [`def_items`] states.
fn def_items_roff(children: &Vec<ManNode>, today: &str) -> (r: String)
    ensures
        r@ == def_items(man_seq_view(children@), today@),
    decreases children@,
{
    let ghost views = man_seq_view(children@);
    let mut r = String::new();
    let mut i: usize = 0;
    proof {
        lemma_man_seq_view(children@);
    }
    while i < children.len()
        invariant
            i <= children.len(),
            views == man_seq_view(children@),
            views.len() == children@.len(),
            forall|j: int| 0 <= j < children@.len() ==> views[j] == #[trigger] children@[j]@,
            r@ == def_items(views.take(i as int), today@),
        decreases children.len() - i,
    {
        let ghost pre = r@;
        r.append(".TP\n");
        let part = children[i].to_roff_with_today(today);
        r.append(part.as_str());
        r.append("\n\n");
        proof {
            lemma_def_snoc(views.take(i as int), views[i as int], today@);
            assert(views.take(i + 1) =~= views.take(i as int).push(views[i as int]));
            assert(((pre + ".TP\n"@) + part@) + "\n\n"@ =~= pre + (".TP\n"@ + part@ + "\n\n"@));
        }
        i = i + 1;
    }
    proof {
        assert(views.take(children@.len() as int) =~= views);
    }
    r
}

/// The roff text of a document, taking the current date for any title
/// line without one.
pub fn render_document_now(nodes: &Vec<ManNode>) -> (r: String)
    ensures
        exists|today: Seq<char>| r@ == roff_seq(man_seq_view(nodes@), today),
{
    let today = today_string();
    let r = render_document(nodes, today.as_str());
    proof {
        assert(r@ == roff_seq(man_seq_view(nodes@), today@));
    }
    r
}

/// Serialization into roff text.
pub trait ToRoff {
    /// The roff text this value denotes, given the text standing in
    /// for the current date.
    spec fn roff_model(&self, today: Seq<char>) -> Seq<char>;

    /// The roff text of this value; wherever a title line carries no
    /// date, the current date is taken.
    fn to_roff(&self) -> (r: String)
        ensures
            exists|today: Seq<char>| r@ == self.roff_model(today),
    ;
}

impl ToRoff for ManNode {
    open spec fn roff_model(&self, today: Seq<char>) -> Seq<char> {
        roff_of(self@, today)
    }

    fn to_roff(&self) -> (r: String) {
        let today = today_string();
        let r = self.to_roff_with_today(today.as_str());
        proof {
            assert(r@ == self.roff_model(today@));
        }
        r
    }
}

pub proof fn lemma_def_snoc(s: Seq<ManNodeV>, x: ManNodeV, today: Seq<char>)
    ensures
        def_items(s.push(x), today) == def_items(s, today) + (".TP\n"@ + roff_of(x, today)
            + "\n\n"@),
    decreases s,
{
    if s.len() == 0 {
        reveal_with_fuel(def_items, 3);
        assert(s.push(x)[0] == x);
        assert(s.push(x).drop_first() =~= s);
        assert(Seq::<char>::empty() + (".TP\n"@ + roff_of(x, today) + "\n\n"@) =~= (".TP\n"@
            + roff_of(x, today) + "\n\n"@) + Seq::<char>::empty());
    } else {
        assert(s.push(x)[0] == s[0]);
        assert(s.push(x).drop_first() =~= s.drop_first().push(x));
        lemma_def_snoc(s.drop_first(), x, today);
        assert((".TP\n"@ + roff_of(s[0], today) + "\n\n"@) + (def_items(s.drop_first(), today) + (
        ".TP\n"@ + roff_of(x, today) + "\n\n"@)) =~= ((".TP\n"@ + roff_of(s[0], today) + "\n\n"@)
            + def_items(s.drop_first(), today)) + (".TP\n"@ + roff_of(x, today) + "\n\n"@));
    }
}

} // verus!
