//! The console's command words: the first word of an input line decides
//! what is done with it.
use vstd::prelude::*;

verus! {

/// What an input line asks for.
#[derive(Debug, Clone, Copy, PartialEq, Eq, Structural)]
pub enum Command {
    /// Run the line as a query.
    Select,
    /// End the session.
    Exit,
    /// Anything else.
    Unknown,
}

/// ASCII whitespace, as `str::split_ascii_whitespace` counts it.
pub open spec fn is_ascii_space(c: char) -> bool {
    c == ' ' || c == '\t' || c == '\n' || c == '\x0C' || c == '\r'
}

/// The text without its leading ASCII whitespace.
pub open spec fn skip_spaces(s: Seq<char>) -> Seq<char>
    decreases s.len(),
{
    if s.len() > 0 && is_ascii_space(s[0]) {
        skip_spaces(s.drop_first())
    } else {
        s
    }
}

/// The characters before the first ASCII whitespace.
pub open spec fn take_word(s: Seq<char>) -> Seq<char>
    decreases s.len(),
{
    if s.len() == 0 || is_ascii_space(s[0]) {
        Seq::empty()
    } else {
        seq![s[0]] + take_word(s.drop_first())
    }
}

/// The first whitespace-separated word of a line, empty where there is none.
pub open spec fn first_word(s: Seq<char>) -> Seq<char> {
    take_word(skip_spaces(s))
}

/// `w` spells `lower` with each letter in either case (`upper` gives the
/// upper-case letters).
pub open spec fn spells(w: Seq<char>, lower: Seq<char>, upper: Seq<char>) -> bool {
    &&& w.len() == lower.len()
    &&& forall|i: int| 0 <= i < w.len() ==> #[trigger] w[i] == lower[i] || w[i] == upper[i]
}

/// The command that a line names by its first word, in any case.
pub open spec fn command_named(line: Seq<char>) -> Command {
    let w = first_word(line);
    if spells(w, seq!['s', 'e', 'l', 'e', 'c', 't'], seq!['S', 'E', 'L', 'E', 'C', 'T']) {
        Command::Select
    } else if spells(w, seq!['e', 'x', 'i', 't'], seq!['E', 'X', 'I', 'T']) {
        Command::Exit
    } else {
        Command::Unknown
    }
}

proof fn lemma_take_word_step(s: Seq<char>, i: int, j: int)
    requires
        0 <= i <= j < s.len(),
        !is_ascii_space(s[j]),
        take_word(s.subrange(i, s.len() as int)) == s.subrange(i, j) + take_word(s.subrange(j, s.len() as int)),
    ensures
        take_word(s.subrange(i, s.len() as int)) == s.subrange(i, j + 1) + take_word(s.subrange(j + 1, s.len() as int)),
{
    let rest = s.subrange(j, s.len() as int);
    assert(rest.drop_first() =~= s.subrange(j + 1, s.len() as int));
    assert(s.subrange(i, j) + seq![s[j]] =~= s.subrange(i, j + 1));
    assert(s.subrange(i, j) + (seq![s[j]] + take_word(rest.drop_first())) =~= s.subrange(i, j + 1) + take_word(
        s.subrange(j + 1, s.len() as int),
    ));
}

fn spells_exec(line: &str, start: usize, end: usize, lower: &str, upper: &str) -> (r: bool)
    requires
        start <= end <= line@.len(),
        lower@.len() == upper@.len(),
    ensures
        r == spells(line@.subrange(start as int, end as int), lower@, upper@),
{
    let n = lower.unicode_len();
    if end - start != n {
        return false;
    }
    let ghost w = line@.subrange(start as int, end as int);
    let mut k: usize = 0;
    while k < n
        invariant
            n == lower@.len(),
            lower@.len() == upper@.len(),
            end - start == n,
            start <= end <= line@.len(),
            w == line@.subrange(start as int, end as int),
            k <= n,
            forall|i: int| 0 <= i < k ==> #[trigger] w[i] == lower@[i] || w[i] == upper@[i],
        decreases n - k,
    {
        let c = line.get_char(start + k);
        if c != lower.get_char(k) && c != upper.get_char(k) {
            assert(!(w[k as int] == lower@[k as int] || w[k as int] == upper@[k as int]));
            return false;
        }
        k = k + 1;
    }
    true
}

fn is_space_char(c: char) -> (r: bool)
    ensures
        r == is_ascii_space(c),
{
    c == ' ' || c == '\t' || c == '\n' || c == '\x0C' || c == '\r'
}

/// The command that an input line names by its first word, in any case:
/// `select` runs the line as a query, `exit` ends the session.
pub fn command_of(line: &str) -> (r: Command)
    ensures
        r == command_named(line@),
{
    let len = line.unicode_len();
    let ghost s = line@;
    let mut i: usize = 0;
    assert(s.subrange(0, len as int) =~= s);
    while i < len && is_space_char(line.get_char(i))
        invariant
            len == s.len(),
            s == line@,
            i <= len,
            skip_spaces(s) == skip_spaces(s.subrange(i as int, len as int)),
        decreases len - i,
    {
        proof {
            let rest = s.subrange(i as int, len as int);
            assert(rest.drop_first() =~= s.subrange(i + 1, len as int));
        }
        i = i + 1;
    }
    proof {
        let rest = s.subrange(i as int, len as int);
        assert(skip_spaces(rest) == rest);
    }
    let mut j: usize = i;
    proof {
        assert(s.subrange(i as int, j as int) =~= Seq::<char>::empty());
        assert(s.subrange(i as int, j as int) + take_word(s.subrange(j as int, len as int)) =~= take_word(
            s.subrange(j as int, len as int),
        ));
    }
    while j < len && !is_space_char(line.get_char(j))
        invariant
            len == s.len(),
            s == line@,
            i <= j <= len,
            take_word(s.subrange(i as int, len as int)) == s.subrange(i as int, j as int) + take_word(
                s.subrange(j as int, len as int),
            ),
        decreases len - j,
    {
        proof {
            lemma_take_word_step(s, i as int, j as int);
        }
        j = j + 1;
    }
    proof {
        let rest = s.subrange(j as int, len as int);
        assert(take_word(rest) =~= Seq::<char>::empty());
        assert(first_word(s) =~= s.subrange(i as int, j as int));
        reveal_strlit("select");
        reveal_strlit("SELECT");
        reveal_strlit("exit");
        reveal_strlit("EXIT");
        assert("select"@ =~= seq!['s', 'e', 'l', 'e', 'c', 't']);
        assert("SELECT"@ =~= seq!['S', 'E', 'L', 'E', 'C', 'T']);
        assert("exit"@ =~= seq!['e', 'x', 'i', 't']);
        assert("EXIT"@ =~= seq!['E', 'X', 'I', 'T']);
    }
    if spells_exec(line, i, j, "select", "SELECT") {
        Command::Select
    } else if spells_exec(line, i, j, "exit", "EXIT") {
        Command::Exit
    } else {
        Command::Unknown
    }
}

} // verus!
