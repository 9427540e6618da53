//! The to-do list value and its mutations.
use vstd::prelude::*;
use vstd::string::*;

verus! {

/// Why a list mutation was refused.
#[derive(Debug, Clone, Copy, PartialEq, Eq)]
pub enum ListError {
    /// The 1-based position is not that of an entry.
    IndexError,
    /// The list already holds as many entries as it may.
    Full,
}

/// The decimal digit `d` as a character.
pub open spec fn digit_char(d: nat) -> char {
    (('0' as u8) + (d % 10) as u8) as char
}

/// The decimal numeral of `n`, without leading zeros.
pub open spec fn decimal_chars(n: nat) -> Seq<char>
    decreases n,
{
    if n < 10 {
        seq![digit_char(n)]
    } else {
        decimal_chars(n / 10).push(digit_char(n % 10))
    }
}

/// The line shown for the entry at 0-based position `i`: `"<i+1>. <entry>"`.
pub open spec fn entry_line(i: nat, entry: Seq<char>) -> Seq<char> {
    decimal_chars(i + 1) + seq!['.', ' '] + entry
}

/// What a list looks like when read: its title, then one numbered line per entry.
pub open spec fn render_lines(m: TodoModel) -> Seq<Seq<char>> {
    seq![m.title] + Seq::new(m.content.len(), |i: int| entry_line(i as nat, m.content[i]))
}

proof fn lemma_digit_text(d: nat)
    requires
        d < 10,
    ensures
        "0123456789"@.subrange(d as int, d as int + 1) == seq![digit_char(d)],
{
    reveal_strlit("0123456789");
    assert("0123456789"@.subrange(d as int, d as int + 1) =~= seq!["0123456789"@[d as int]]);
    if d == 0 {} else if d == 1 {} else if d == 2 {} else if d == 3 {} else if d == 4 {
    } else if d == 5 {} else if d == 6 {} else if d == 7 {} else if d == 8 {} else {}
}

/// The decimal numeral of `n`, without sign or leading zeros.
fn decimal(n: usize) -> (r: String)
    ensures
        r@ == decimal_chars(n as nat),
{
    let digits = "0123456789";
    proof {
        reveal_strlit("0123456789");
    }
    let mut m = n;
    let mut acc = String::new();
    while m >= 10
        invariant
            digits@ == "0123456789"@,
            digits@.len() == 10,
            decimal_chars(n as nat) == decimal_chars(m as nat) + acc@,
        decreases m,
    {
        let d = m % 10;
        proof {
            lemma_digit_text(d as nat);
            assert(decimal_chars(m as nat) == decimal_chars((m / 10) as nat).push(
                digit_char(d as nat),
            ));
        }
        let ds = digits.substring_char(d, d + 1);
        let ghost old_acc = acc@;
        acc = String::from_str(ds).concat(acc.as_str());
        assert(decimal_chars(m as nat) + old_acc =~= decimal_chars((m / 10) as nat) + acc@);
        m = m / 10;
    }
    proof {
        lemma_digit_text(m as nat);
    }
    let ds = digits.substring_char(m, m + 1);
    String::from_str(ds).concat(acc.as_str())
}

/// Largest number of entries one list holds: one less than the subkey
/// count of the record schema the list is created with.
pub const MAX_ITEMS: usize = 49;

/// What a list is, mathematically: a title and an ordered sequence of entries.
pub struct TodoModel {
    pub title: Seq<char>,
    pub content: Seq<Seq<char>>,
}

impl TodoModel {
    /// The bound on the number of entries holds.
    pub open spec fn wf(self) -> bool {
        self.content.len() <= MAX_ITEMS
    }
}

/// A to-do list: a title and its numbered entries.
#[derive(Debug, PartialEq, Eq)]
pub struct Todo {
    pub title: String,
    pub content: Vec<String>,
}

impl View for Todo {
    type V = TodoModel;

    open spec fn view(&self) -> TodoModel {
        TodoModel { title: self.title@, content: self.content@.map_values(|s: String| s@) }
    }
}

impl Todo {
    pub open spec fn wf(&self) -> bool {
        self@.wf()
    }

    /// A new, empty list with the given title.
    pub fn new(title: String) -> (r: Todo)
        ensures
            r@.title == title@,
            r@.content == Seq::<Seq<char>>::empty(),
            r.wf(),
    {
        let r = Todo { title, content: Vec::new() };
        assert(r@.content =~= Seq::<Seq<char>>::empty());
        r
    }

    /// Adds `text` as the last entry; refused, with the list unchanged, when
    /// the list is full.
    pub fn append(&mut self, text: String) -> (r: Result<(), ListError>)
        requires
            old(self).wf(),
        ensures
            final(self).wf(),
            old(self)@.content.len() < MAX_ITEMS ==> r is Ok && final(self)@ == (TodoModel {
                title: old(self)@.title,
                content: old(self)@.content.push(text@),
            }),
            old(self)@.content.len() >= MAX_ITEMS ==> r == Err::<(), ListError>(ListError::Full)
                && final(self)@ == old(self)@,
    {
        if self.content.len() >= MAX_ITEMS {
            return Err(ListError::Full);
        }
        let ghost before = self@;
        self.content.push(text);
        assert(self@.content =~= before.content.push(text@));
        Ok(())
    }

    /// Removes the entry at the 1-based position `index`, handing it back;
    /// refused, with the list unchanged, when no entry stands there.
    pub fn remove_at(&mut self, index: usize) -> (r: Result<String, ListError>)
        requires
            old(self).wf(),
        ensures
            final(self).wf(),
            1 <= index <= old(self)@.content.len() ==> r is Ok && r->Ok_0@ == old(self)@.content[index
                - 1] && final(self)@ == (TodoModel {
                title: old(self)@.title,
                content: old(self)@.content.remove(index - 1),
            }),
            !(1 <= index <= old(self)@.content.len()) ==> r == Err::<String, ListError>(
                ListError::IndexError,
            ) && final(self)@ == old(self)@,
    {
        if index < 1 || index > self.content.len() {
            return Err(ListError::IndexError);
        }
        let ghost before = self@;
        let removed = self.content.remove(index - 1);
        assert(self@.content =~= before.content.remove(index - 1));
        Ok(removed)
    }

    /// The lines shown when the list is read: the title, then `"1. <entry>"`,
    /// `"2. <entry>"`, and so on.
    pub fn render(&self) -> (r: Vec<String>)
        requires
            self.wf(),
        ensures
            r@.map_values(|s: String| s@) == render_lines(self@),
    {
        let mut lines: Vec<String> = Vec::new();
        lines.push(self.title.clone());
        let mut i: usize = 0;
        while i < self.content.len()
            invariant
                self.wf(),
                0 <= i <= self.content@.len(),
                lines@.map_values(|s: String| s@) == render_lines(self@).subrange(0, i + 1),
            decreases self.content@.len() - i,
        {
            let mut line = decimal(i + 1);
            line.append(". ");
            line.append(self.content[i].as_str());
            proof {
                reveal_strlit(". ");
                assert(". "@ =~= seq!['.', ' ']);
                assert(self@.content[i as int] == self.content@[i as int]@);
                assert(line@ == entry_line(i as nat, self@.content[i as int]));
            }
            let ghost before = lines@.map_values(|s: String| s@);
            let ghost lv = line@;
            lines.push(line);
            proof {
                let all = render_lines(self@);
                assert(all[i + 1] == entry_line(i as nat, self@.content[i as int]));
                assert(all.subrange(0, i + 2) =~= all.subrange(0, i + 1).push(lv));
                assert(lines@.map_values(|s: String| s@) =~= before.push(lv));
            }
            i = i + 1;
        }
        assert(render_lines(self@).subrange(0, i + 1) =~= render_lines(self@));
        lines
    }
}

} // verus!
