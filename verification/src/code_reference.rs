//! The source-position model: an immutable, named buffer of source lines
//! (`CodeLines`) and single-character coordinates into it (`CharRef`).
//!
//! A buffer is built once from raw text and never mutated; every reference
//! derived from it shares it read-only through a reference-counted handle.

use std::rc::Rc;
use vstd::prelude::*;
use vstd::string::StrSliceExecFns;

verus! {

/// Mathematical model of a source buffer: its display name and the verbatim
/// content of each logical line, terminator characters included.
pub struct CodeModel {
    pub name: Seq<char>,
    pub lines: Seq<Seq<char>>,
}

/// The sequence of line contents held by a vector of line vectors.
pub open spec fn lines_view(code: Seq<Vec<char>>) -> Seq<Seq<char>> {
    code.map_values(|l: Vec<char>| l@)
}

/// The name of a file and its source text as a vector of lines, each line a
/// vector of its characters with the terminating newline retained.
#[derive(Debug)]
pub struct CodeLines {
    /// The lines of the source text, in order, never reordered or mutated
    /// after construction.
    pub code: Vec<Vec<char>>,
    /// The display identifier of the buffer, e.g. a file path.
    pub name: String,
}

impl View for CodeLines {
    type V = CodeModel;

    open spec fn view(&self) -> CodeModel {
        CodeModel { name: self.name@, lines: lines_view(self.code@) }
    }
}

/// Relies on `Rc::clone` of the standard library: the clone is a second
/// handle to the same allocation, so it equals the original.
#[verifier::external_body]
fn clone_rc(v: &Rc<CodeLines>) -> (r: Rc<CodeLines>)
    ensures
        r == *v,
{
    v.clone()
}

/// A single character of the source text together with its coordinates: the
/// 0-indexed line it came from, its 0-indexed position in that line, and a
/// shared handle to the buffer it was read out of.
#[derive(Clone, Debug)]
pub struct CharRef {
    /// The character at this coordinate.
    pub value: char,
    /// The 0-indexed line the character came from.
    pub line: usize,
    /// The 0-indexed position of the character within its line.
    pub pos: usize,
    /// The buffer this reference was created from.
    pub origin: Rc<CodeLines>,
}

impl CharRef {
    /// Builds a character reference from a character and its coordinates.
    pub fn new(value: char, line: usize, pos: usize, origin: Rc<CodeLines>) -> (r: CharRef)
        ensures
            r.value == value,
            r.line == line,
            r.pos == pos,
            r.origin == origin,
    {
        CharRef { value, line, pos, origin }
    }
}

/// The enumeration of one line: for each position, the character, the line
/// number and the position.
pub open spec fn line_refs(line: Seq<char>, ln: nat) -> Seq<(char, nat, nat)> {
    Seq::new(line.len(), |c: int| (line[c], ln, c as nat))
}

/// The line-major, column-minor enumeration of every character of `lines`.
pub open spec fn buffer_refs(lines: Seq<Seq<char>>) -> Seq<(char, nat, nat)>
    decreases lines.len(),
{
    if lines.len() == 0 {
        Seq::empty()
    } else {
        buffer_refs(lines.drop_last()) + line_refs(lines.last(), (lines.len() - 1) as nat)
    }
}

/// Whether the references of `r` carry exactly the characters and coordinates
/// of `models`, every one sharing the buffer `buf`.
pub open spec fn refs_match(r: Seq<CharRef>, models: Seq<(char, nat, nat)>, buf: CodeModel) -> bool {
    &&& r.len() == models.len()
    &&& forall|k: int|
        0 <= k < r.len() ==> {
            &&& (#[trigger] r[k]).value == models[k].0
            &&& r[k].line == models[k].1
            &&& r[k].pos == models[k].2
            &&& r[k].origin@ == buf
        }
}

/// The length of the first line of `text`, its terminating newline included;
/// the whole of `text` when no newline occurs.
pub open spec fn line_len(text: Seq<char>) -> nat
    decreases text.len(),
{
    if text.len() == 0 {
        0
    } else if text[0] == '\n' {
        1
    } else {
        1 + line_len(text.skip(1))
    }
}

/// The first line of a non-empty text is non-empty and no longer than the text.
pub proof fn lemma_line_len_bounds(text: Seq<char>)
    requires
        text.len() > 0,
    ensures
        1 <= line_len(text) <= text.len(),
    decreases text.len(),
{
    if text[0] != '\n' {
        if text.len() > 1 {
            lemma_line_len_bounds(text.skip(1));
        } else {
            assert(text.skip(1).len() == 0);
            assert(line_len(text.skip(1)) == 0);
        }
    }
}

/// When the first newline of `text` stands at index `k`, the first line is
/// exactly `k + 1` characters long.
pub proof fn lemma_line_len_at(text: Seq<char>, k: int)
    requires
        0 <= k < text.len(),
        text[k] == '\n',
        forall|j: int| 0 <= j < k ==> text[j] != '\n',
    ensures
        line_len(text) == k + 1,
    decreases k,
{
    if k > 0 {
        assert(forall|j: int| 0 <= j < k - 1 ==> text.skip(1)[j] == text[j + 1]);
        lemma_line_len_at(text.skip(1), k - 1);
    }
}

/// A text without newlines is a single line of its own length.
pub proof fn lemma_line_len_no_newline(text: Seq<char>)
    requires
        forall|j: int| 0 <= j < text.len() ==> text[j] != '\n',
    ensures
        line_len(text) == text.len(),
    decreases text.len(),
{
    if text.len() > 0 {
        lemma_line_len_no_newline(text.skip(1));
    }
}

/// The lines of `text`: maximal runs ending at a newline, each line keeping
/// its terminator, with a final line lacking one retained as well.
pub open spec fn split_lines(text: Seq<char>) -> Seq<Seq<char>>
    decreases text.len(),
    via split_lines_decreases
{
    if text.len() == 0 {
        Seq::empty()
    } else {
        seq![text.take(line_len(text) as int)] + split_lines(text.skip(line_len(text) as int))
    }
}

#[via_fn]
proof fn split_lines_decreases(text: Seq<char>) {
    if text.len() > 0 {
        lemma_line_len_bounds(text);
    }
}

/// The concatenation of a sequence of lines.
pub open spec fn concat_lines(lines: Seq<Seq<char>>) -> Seq<char>
    decreases lines.len(),
{
    if lines.len() == 0 {
        Seq::empty()
    } else {
        lines[0] + concat_lines(lines.skip(1))
    }
}

/// Law: concatenating the lines a text was split into reproduces the text
/// exactly, a final line with no trailing terminator included.
pub proof fn lemma_split_lines_round_trip(text: Seq<char>)
    ensures
        concat_lines(split_lines(text)) == text,
    decreases text.len(),
{
    if text.len() == 0 {
        assert(concat_lines(split_lines(text)) =~= text);
    } else {
        lemma_line_len_bounds(text);
        let l = line_len(text) as int;
        lemma_split_lines_round_trip(text.skip(l));
        assert((seq![text.take(l)] + split_lines(text.skip(l))).skip(1) =~= split_lines(
            text.skip(l),
        ));
        assert(text.take(l) + text.skip(l) =~= text);
    }
}

impl CodeLines {
    /// Builds a buffer from the file name and its raw contents, splitting the
    /// text into lines; a trailing line without a terminator is retained.
    pub fn new(name: &String, input_text: &String) -> (r: CodeLines)
        ensures
            r@.name == name@,
            r@.lines == split_lines(input_text@),
    {
        let mut code: Vec<Vec<char>> = Vec::new();
        let mut tmp: Vec<char> = Vec::new();
        let text = input_text.as_str();
        let n = text.unicode_len();
        let mut i: usize = 0;
        proof {
            assert(text@.skip(0) =~= text@);
        }
        while i < n
            invariant
                i <= n,
                n == text@.len(),
                forall|j: int| 0 <= j < tmp@.len() ==> tmp@[j] != '\n',
                split_lines(text@) == lines_view(code@) + split_lines(tmp@ + text@.skip(i as int)),
            decreases n - i,
        {
            let ghost prev_code = code@;
            let ghost prev_tmp = tmp@;
            let ghost u = prev_tmp + text@.skip(i as int);
            let character = text.get_char(i);
            tmp.push(character);
            if character == '\n' {
                proof {
                    assert(u[prev_tmp.len() as int] == '\n');
                    lemma_line_len_at(u, prev_tmp.len() as int);
                    assert(u.take(prev_tmp.len() as int + 1) =~= tmp@);
                    assert(u.skip(prev_tmp.len() as int + 1) =~= text@.skip(i + 1));
                    assert(split_lines(u) == seq![tmp@] + split_lines(text@.skip(i + 1)));
                }
                code.push(tmp);
                tmp = Vec::new();
                proof {
                    assert(lines_view(code@) =~= lines_view(prev_code).push(u.take(
                        prev_tmp.len() as int + 1,
                    )));
                    assert(tmp@ + text@.skip(i + 1) =~= text@.skip(i + 1));
                    assert(lines_view(code@) + split_lines(text@.skip(i + 1)) =~= lines_view(
                        prev_code,
                    ) + (seq![u.take(prev_tmp.len() as int + 1)] + split_lines(text@.skip(i + 1))));
                }
            } else {
                proof {
                    assert(tmp@ + text@.skip(i + 1) =~= u);
                }
            }
            i = i + 1;
        }
        proof {
            assert(tmp@ + text@.skip(n as int) =~= tmp@);
        }
        if tmp.len() > 0 {
            proof {
                lemma_line_len_no_newline(tmp@);
                assert(tmp@.take(tmp@.len() as int) =~= tmp@);
                assert(split_lines(tmp@.skip(tmp@.len() as int)) =~= Seq::<Seq<char>>::empty());
                assert(split_lines(tmp@) =~= seq![tmp@]);
            }
            let ghost prev_code = code@;
            let ghost last = tmp@;
            code.push(tmp);
            proof {
                assert(lines_view(code@) =~= lines_view(prev_code) + seq![last]);
            }
        } else {
            proof {
                assert(split_lines(tmp@) =~= Seq::<Seq<char>>::empty());
                assert(lines_view(code@) + Seq::<Seq<char>>::empty() =~= lines_view(code@));
            }
        }
        let r = CodeLines { name: name.clone(), code };
        r
    }

    /// Enumerates every character of the buffer as a vector of character
    /// references, in line-major, column-minor order, each sharing `origin`.
    pub fn to_char_ref(origin: Rc<CodeLines>) -> (r: Vec<CharRef>)
        ensures
            refs_match(r@, buffer_refs(origin@.lines), origin@),
    {
        let ghost lines = origin@.lines;
        let mut r: Vec<CharRef> = Vec::new();
        let n = origin.code.len();
        let mut line_number: usize = 0;
        proof {
            assert(buffer_refs(lines.take(0)) =~= Seq::<(char, nat, nat)>::empty());
        }
        while line_number < n
            invariant
                line_number <= n,
                n == origin.code@.len(),
                lines == origin@.lines,
                refs_match(r@, buffer_refs(lines.take(line_number as int)), origin@),
            decreases n - line_number,
        {
            let m = origin.code[line_number].len();
            let ghost line = lines[line_number as int];
            let ghost done = buffer_refs(lines.take(line_number as int));
            let mut char_number: usize = 0;
            proof {
                assert(line_refs(line, line_number as nat).take(0) =~= Seq::<(
                    char,
                    nat,
                    nat,
                )>::empty());
                assert(done + line_refs(line, line_number as nat).take(0) =~= done);
            }
            while char_number < m
                invariant
                    char_number <= m,
                    line_number < n,
                    n == origin.code@.len(),
                    m == origin.code@[line_number as int]@.len(),
                    lines == origin@.lines,
                    line == lines[line_number as int],
                    done == buffer_refs(lines.take(line_number as int)),
                    refs_match(
                        r@,
                        done + line_refs(line, line_number as nat).take(char_number as int),
                        origin@,
                    ),
                decreases m - char_number,
            {
                let value = origin.code[line_number][char_number];
                let reference = CharRef::new(value, line_number, char_number, clone_rc(&origin));
                r.push(reference);
                proof {
                    assert(done + line_refs(line, line_number as nat).take(
                        char_number as int + 1,
                    ) =~= (done + line_refs(line, line_number as nat).take(char_number as int)).push(
                        (line[char_number as int], line_number as nat, char_number as nat),
                    ));
                }
                char_number = char_number + 1;
            }
            proof {
                assert(line_refs(line, line_number as nat).take(m as int) =~= line_refs(
                    line,
                    line_number as nat,
                ));
                let next = lines.take(line_number as int + 1);
                assert(next.drop_last() =~= lines.take(line_number as int));
                assert(next.last() == line);
                assert(buffer_refs(next) == done + line_refs(line, line_number as nat));
            }
            line_number = line_number + 1;
        }
        proof {
            assert(lines.take(n as int) =~= lines);
        }
        r
    }
}

} // verus!
