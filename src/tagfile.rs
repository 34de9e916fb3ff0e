use vstd::prelude::*;

use crate::column::names_view;
use crate::errors::FerricError;
use crate::text::{decimal_digits, push_char, push_decimal_digits};

verus! {

/// The most column names a table can have.
pub const MAX_COLUMNS: usize = 255;

/// The column names read from a table's companion tag file.
#[derive(Clone, Debug)]
pub struct TagFile {
    /// Where the tag file was read from.
    pub filepath: String,
    /// The column names, in column order.
    pub tags: Vec<String>,
}

/// The name given to an unnamed column at zero-based position `i`.
pub open spec fn placeholder_name(i: int) -> Seq<char> {
    "Column"@ + decimal_digits((i + 1) as nat)
}

/// The names of a table's columns: the known names, then placeholders up
/// to `count`, at most 255 names in all.
pub open spec fn generated_names(count: int, known: Seq<Seq<char>>) -> Seq<Seq<char>> {
    let total = if known.len() > count { known.len() as int } else { count };
    let capped = if total > MAX_COLUMNS { MAX_COLUMNS as int } else { total };
    Seq::new(capped as nat, |i: int| if i < known.len() { known[i] } else { placeholder_name(i) })
}

/// The ASCII white space that separates names in a tag file.
pub open spec fn ascii_space(c: char) -> bool {
    c == ' ' || c == '\t' || c == '\n' || c == '\x0C' || c == '\r'
}

/// The maximal runs of non-space characters of `s`, in order.
pub open spec fn words(s: Seq<char>) -> Seq<Seq<char>>
    decreases s.len(),
{
    if s.len() == 0 {
        Seq::empty()
    } else {
        let w = words(s.drop_last());
        let c = s.last();
        if ascii_space(c) {
            w
        } else if s.len() >= 2 && !ascii_space(s[s.len() - 2]) {
            w.drop_last().push(w.last().push(c))
        } else {
            w.push(seq![c])
        }
    }
}

fn is_ascii_space(c: char) -> (r: bool)
    ensures
        r == ascii_space(c),
{
    c == ' ' || c == '\t' || c == '\n' || c == '\x0C' || c == '\r'
}

impl TagFile {
    /// The tag file at `filepath` whose contents are `text`: its names are
    /// the white-space separated words of the text.
    pub fn from_text(filepath: String, text: &str) -> (r: TagFile)
        ensures
            r.filepath == filepath,
            names_view(r.tags@) == words(text@),
    {
        let n = text.unicode_len();
        let ghost t = text@;
        let mut out: Vec<String> = Vec::new();
        let mut cur = String::new();
        let mut in_word = false;
        let mut i: usize = 0;
        while i < n
            invariant
                i <= n,
                n == t.len(),
                t == text@,
                in_word == (i > 0 && !ascii_space(t[i - 1])),
                in_word ==> words(t.subrange(0, i as int)) == names_view(out@).push(cur@),
                !in_word ==> words(t.subrange(0, i as int)) == names_view(out@),
            decreases n - i,
        {
            let c = text.get_char(i);
            let ghost pre = t.subrange(0, i as int);
            let ghost post = t.subrange(0, i + 1);
            assert(post.drop_last() =~= pre);
            assert(post.last() == c);
            if i > 0 {
                assert(post[post.len() - 2] == t[i - 1]);
            }
            if is_ascii_space(c) {
                if in_word {
                    let ghost prev = out@;
                    let w = cur;
                    out.push(w);
                    assert(names_view(out@) =~= names_view(prev).push(w@));
                    cur = String::new();
                }
                in_word = false;
            } else {
                if in_word {
                    assert(names_view(out@).push(cur@).drop_last() =~= names_view(out@));
                    push_char(&mut cur, c);
                } else {
                    let mut w = String::new();
                    push_char(&mut w, c);
                    assert(w@ =~= seq![c]);
                    cur = w;
                }
                in_word = true;
            }
            i = i + 1;
        }
        if in_word {
            let ghost prev = out@;
            let w = cur;
            out.push(w);
            assert(names_view(out@) =~= names_view(prev).push(w@));
        }
        assert(t.subrange(0, n as int) =~= t);
        TagFile { filepath, tags: out }
    }

    /// Completes a list of known column names with placeholders up to
    /// `column_count` names, keeping at most 255.
    pub fn generate_column_names(column_count: u8, known_columns: Option<Vec<String>>) -> (r: Result<
        Vec<String>,
        FerricError,
    >)
        ensures
            r matches Ok(v) && names_view(v@) == generated_names(
                column_count as int,
                match known_columns { Some(k) => names_view(k@), None => Seq::empty() },
            ),
    {
        let known: Vec<String> = match known_columns {
            Some(k) => k,
            None => Vec::new(),
        };
        let ghost kv = names_view(known@);
        let count: usize = column_count as usize;
        let total: usize = if known.len() > count { known.len() } else { count };
        let capped: usize = if total > MAX_COLUMNS { MAX_COLUMNS } else { total };
        let ghost target = generated_names(column_count as int, kv);
        let mut out: Vec<String> = Vec::new();
        let mut i: usize = 0;
        while i < capped
            invariant
                i <= capped,
                capped == target.len(),
                kv == names_view(known@),
                target == generated_names(column_count as int, kv),
                names_view(out@) == target.subrange(0, i as int),
            decreases capped - i,
        {
            let name: String = if i < known.len() {
                let k = known[i].clone();
                assert(k@ == kv[i as int]);
                k
            } else {
                let mut s = String::from_str("Column");
                push_decimal_digits(&mut s, (i + 1) as u64);
                s
            };
            assert(name@ == target[i as int]);
            let ghost prev = out@;
            out.push(name);
            assert(names_view(out@) =~= names_view(prev).push(name@));
            i = i + 1;
            assert(names_view(out@) =~= target.subrange(0, i as int));
        }
        assert(target.subrange(0, capped as int) =~= target);
        Ok(out)
    }
}

} // verus!
