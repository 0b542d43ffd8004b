//! Unescaping of string literals and raw markup.

use vstd::prelude::*;
use vstd::string::*;

verus! {

/// `String::push` appends one character to the end of the string.
pub assume_specification[ String::push ](s: &mut String, c: char)
    ensures
        final(s)@ == old(s)@.push(c),
;

/// What an escape sequence in a string literal stands for: the character
/// behind the backslash decides. An unknown escape stands for itself,
/// backslash included.
pub open spec fn escaped_in_string(c: char) -> Seq<char> {
    if c == '\\' {
        seq!['\\']
    } else if c == '"' {
        seq!['"']
    } else if c == 'n' {
        seq!['\n']
    } else if c == 't' {
        seq!['\t']
    } else {
        seq!['\\', c]
    }
}

/// The text of a string literal with its escape sequences resolved. A lone
/// backslash at the end stays as it is.
pub open spec fn spec_unescape_string(s: Seq<char>) -> Seq<char>
    decreases s.len(),
{
    if s.len() == 0 {
        Seq::empty()
    } else if s[0] != '\\' {
        seq![s[0]] + spec_unescape_string(s.skip(1))
    } else if s.len() == 1 {
        seq!['\\']
    } else {
        escaped_in_string(s[1]) + spec_unescape_string(s.skip(2))
    }
}

/// Resolve the escape sequences of a string literal:
/// `\\`, `\"`, `\n` and `\t` become the character they name.
pub fn unescape_string(string: &str) -> (out: String)
    ensures
        out@ == spec_unescape_string(string@),
{
    let mut out = String::new();
    let mut iter = string.chars();
    let ghost mut taken: int = 0;
    proof {
        assert(string@.skip(0) =~= string@);
        assert(out@ + spec_unescape_string(string@) =~= spec_unescape_string(string@));
    }
    loop
        invariant
            0 <= taken <= string@.len(),
            vstd::std_specs::iter::IteratorSpec::remaining(&iter) == string@.skip(taken),
            out@ + spec_unescape_string(string@.skip(taken)) == spec_unescape_string(string@),
        ensures
            out@ == spec_unescape_string(string@),
        decreases string@.len() - taken,
    {
        let ghost before = string@.skip(taken);
        match iter.next() {
            None => {
                assert(out@ + Seq::<char>::empty() =~= out@);
                break ;
            },
            Some(c) => {
                proof {
                    taken = taken + 1;
                    assert(before.skip(1) =~= string@.skip(taken));
                }
                let ghost old_out = out@;
                if c == '\\' {
                    let next = iter.next();
                    proof {
                        if next is Some {
                            taken = taken + 1;
                            assert(before.skip(2) =~= string@.skip(taken));
                        }
                    }
                    match next {
                        Some('\\') => out.push('\\'),
                        Some('"') => out.push('"'),
                        Some('n') => out.push('\n'),
                        Some('t') => out.push('\t'),
                        Some(c) => {
                            out.push('\\');
                            out.push(c);
                        },
                        None => out.push('\\'),
                    }
                    proof {
                        if next is Some {
                            assert(out@ =~= old_out + escaped_in_string(before[1]));
                            assert(out@ + spec_unescape_string(before.skip(2)) =~= old_out + (
                            escaped_in_string(before[1]) + spec_unescape_string(before.skip(2))));
                        } else {
                            assert(out@ =~= old_out + seq!['\\']);
                            assert(spec_unescape_string(string@.skip(taken)) =~= Seq::<char>::empty());
                            assert(out@ + Seq::<char>::empty() =~= out@);
                        }
                    }
                } else {
                    out.push(c);
                    proof {
                        assert(out@ + spec_unescape_string(before.skip(1)) =~= old_out + (seq![c]
                            + spec_unescape_string(before.skip(1))));
                    }
                }
            },
        }
    }
    out
}

/// Whether a character ends a line: line feed, vertical tab, form feed,
/// carriage return, next line, line separator or paragraph separator.
pub open spec fn spec_is_newline_char(c: char) -> bool {
    ('\x0A' <= c && c <= '\x0D') || c == '\u{0085}' || c == '\u{2028}' || c == '\u{2029}'
}

/// Whether a character ends a line.
#[verifier::when_used_as_spec(spec_is_newline_char)]
pub fn is_newline_char(c: char) -> (b: bool)
    ensures
        b == spec_is_newline_char(c),
{
    ('\x0A' <= c && c <= '\x0D') || c == '\u{0085}' || c == '\u{2028}' || c == '\u{2029}'
}

/// The lines of the raw text `s`, the first of them begun with `line`.
/// A backslash before a backtick stands for the backtick. Any other
/// backslash stays; the character behind it stays with it, unless it is a
/// newline character, which ends the line as every newline character does.
/// A carriage return directly before a line feed ends the line together
/// with that line feed.
pub open spec fn raw_lines(s: Seq<char>, line: Seq<char>) -> Seq<Seq<char>>
    decreases s.len(),
{
    if s.len() == 0 {
        seq![line]
    } else if s[0] == '\\' {
        if s.len() == 1 {
            seq![line.push('\\')]
        } else if s[1] == '`' {
            raw_lines(s.skip(2), line.push('`'))
        } else if spec_is_newline_char(s[1]) {
            raw_lines(s.skip(1), line.push('\\'))
        } else {
            raw_lines(s.skip(2), line.push('\\').push(s[1]))
        }
    } else if spec_is_newline_char(s[0]) {
        if s[0] == '\r' && s.len() > 1 && s[1] == '\n' {
            seq![line] + raw_lines(s.skip(2), Seq::empty())
        } else {
            seq![line] + raw_lines(s.skip(1), Seq::empty())
        }
    } else {
        raw_lines(s.skip(1), line.push(s[0]))
    }
}

/// The lines of a raw block with its escape sequences resolved: at least one
/// line, and one more for each line break.
pub open spec fn spec_unescape_raw(s: Seq<char>) -> Seq<Seq<char>> {
    raw_lines(s, Seq::empty())
}

/// The number of line breaks in a text: a carriage return directly before a
/// line feed is one line break together with that line feed, and every other
/// newline character is one by itself.
pub open spec fn line_breaks(s: Seq<char>) -> nat
    decreases s.len(),
{
    if s.len() == 0 {
        0
    } else if spec_is_newline_char(s[0]) {
        if s[0] == '\r' && s.len() > 1 && s[1] == '\n' {
            1 + line_breaks(s.skip(2))
        } else {
            1 + line_breaks(s.skip(1))
        }
    } else {
        line_breaks(s.skip(1))
    }
}

/// Whether no character of a line is a newline character.
pub open spec fn is_one_line(line: Seq<char>) -> bool {
    forall|i: int| 0 <= i < line.len() ==> !spec_is_newline_char(#[trigger] line[i])
}

/// Raw text has one line more than it has line breaks, and where the line
/// it begins with holds no newline character, none of its lines does.
pub proof fn lemma_raw_lines(s: Seq<char>, line: Seq<char>)
    ensures
        raw_lines(s, line).len() == line_breaks(s) + 1,
        is_one_line(line) ==> forall|i: int|
            0 <= i < raw_lines(s, line).len() ==> is_one_line(#[trigger] raw_lines(s, line)[i]),
    decreases s.len(),
{
    if s.len() == 0 {
    } else if s[0] == '\\' {
        let rest = s.skip(1);
        if s.len() == 1 {
            assert(line_breaks(rest) == 0);
        } else if s[1] == '`' {
            assert(rest[0] == s[1]);
            assert(rest.skip(1) =~= s.skip(2));
            assert(line_breaks(rest) == line_breaks(s.skip(2)));
            lemma_raw_lines(s.skip(2), line.push('`'));
        } else if spec_is_newline_char(s[1]) {
            lemma_raw_lines(rest, line.push('\\'));
        } else {
            assert(rest[0] == s[1]);
            assert(rest.skip(1) =~= s.skip(2));
            assert(line_breaks(rest) == line_breaks(s.skip(2)));
            lemma_raw_lines(s.skip(2), line.push('\\').push(s[1]));
        }
    } else if spec_is_newline_char(s[0]) {
        let rest = if s[0] == '\r' && s.len() > 1 && s[1] == '\n' {
            s.skip(2)
        } else {
            s.skip(1)
        };
        lemma_raw_lines(rest, Seq::empty());
        let all = raw_lines(s, line);
        assert forall|i: int| is_one_line(line) && 0 <= i < all.len() implies is_one_line(
            #[trigger] all[i],
        ) by {
            if i > 0 {
                assert(all[i] == raw_lines(rest, Seq::empty())[i - 1]);
            }
        }
    } else {
        lemma_raw_lines(s.skip(1), line.push(s[0]));
    }
}

/// Resolve the escape sequences of raw markup and split it into lines: one
/// line more than the text has line breaks, and none of them with a newline
/// character in it.
pub fn unescape_raw(raw: &str) -> (lines: Vec<String>)
    ensures
        lines.deep_view() == spec_unescape_raw(raw@),
        lines.len() == line_breaks(raw@) + 1,
        forall|i: int| 0 <= i < lines.len() ==> is_one_line(#[trigger] lines[i]@),
{
    let mut lines: Vec<String> = Vec::new();
    let mut line = String::new();
    let mut iter = raw.chars();
    let mut pending: Option<char> = None;
    let ghost mut taken: int = 0;
    proof {
        assert(raw@.skip(0) =~= raw@);
        assert(lines.deep_view() =~= Seq::<Seq<char>>::empty());
        assert(lines.deep_view() + raw_lines(raw@, line@) =~= raw_lines(raw@, line@));
    }
    loop
        invariant
            0 <= taken <= raw@.len(),
            match pending {
                Some(c) => taken < raw@.len() && raw@[taken] == c
                    && vstd::std_specs::iter::IteratorSpec::remaining(&iter) == raw@.skip(taken + 1),
                None => vstd::std_specs::iter::IteratorSpec::remaining(&iter) == raw@.skip(taken),
            },
            lines.deep_view() + raw_lines(raw@.skip(taken), line@) == spec_unescape_raw(raw@),
        ensures
            lines.deep_view() + seq![line@] == spec_unescape_raw(raw@),
        decreases raw@.len() - taken,
    {
        let ghost before = raw@.skip(taken);
        let ghost old_lines = lines.deep_view();
        let ghost old_line = line@;
        let current = match pending {
            Some(c) => {
                pending = None;
                Some(c)
            },
            None => iter.next(),
        };
        match current {
            None => {
                break ;
            },
            Some(c) => {
                proof {
                    taken = taken + 1;
                    assert(before.skip(1) =~= raw@.skip(taken));
                }
                if c == '\\' {
                    let next = iter.next();
                    match next {
                        Some('`') => {
                            proof {
                                taken = taken + 1;
                                assert(before.skip(2) =~= raw@.skip(taken));
                            }
                            line.push('`');
                        },
                        Some(c) => {
                            line.push('\\');
                            if is_newline_char(c) {
                                // The newline character ends the line.
                                pending = next;
                            } else {
                                proof {
                                    taken = taken + 1;
                                    assert(before.skip(2) =~= raw@.skip(taken));
                                }
                                line.push(c);
                            }
                        },
                        None => line.push('\\'),
                    }
                } else if is_newline_char(c) {
                    if c == '\r' {
                        let next = iter.next();
                        match next {
                            Some('\n') => {
                                proof {
                                    taken = taken + 1;
                                    assert(before.skip(2) =~= raw@.skip(taken));
                                }
                            },
                            _ => {
                                pending = next;
                            },
                        }
                    }
                    lines.push(line);
                    line = String::new();
                    proof {
                        assert(lines.deep_view() =~= old_lines + seq![old_line]);
                        assert(lines.deep_view() + raw_lines(raw@.skip(taken), line@) =~= old_lines
                            + (seq![old_line] + raw_lines(raw@.skip(taken), line@)));
                    }
                } else {
                    line.push(c);
                }
            },
        }
    }
    let ghost finished = lines.deep_view();
    lines.push(line);
    proof {
        assert(lines.deep_view() =~= finished + seq![line@]);
        lemma_raw_lines(raw@, Seq::empty());
        assert forall|i: int| 0 <= i < lines.len() implies is_one_line(#[trigger] lines[i]@) by {
            assert(lines[i]@ == lines.deep_view()[i]);
        }
    }
    lines
}

} // verus!
