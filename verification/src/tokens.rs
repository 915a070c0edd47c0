//! The credential list: one credential per line, blank lines ignored, a
//! credential that occurs again left out.

use vstd::prelude::*;
use vstd::string::*;
use crate::text::{decimal, fields, split_fields, texts, to_decimal};

verus! {

/// `items` without the repetitions: of equal items the first stays, and the
/// order of what stays is kept.
pub open spec fn dedup(items: Seq<Seq<char>>) -> Seq<Seq<char>>
    decreases items.len(),
{
    if items.len() == 0 {
        Seq::empty()
    } else {
        let before = dedup(items.drop_last());
        if before.contains(items.last()) {
            before
        } else {
            before.push(items.last())
        }
    }
}

/// The credentials that a text lists, in order of first occurrence.
pub open spec fn listed_tokens(content: Seq<char>) -> Seq<Seq<char>> {
    dedup(fields(content, '\n'))
}

/// The line that tells how many credentials were loaded and how many
/// repetitions were passed over.
pub open spec fn load_report(unique: nat, duplicates: nat) -> Seq<char> {
    let loaded = "Loading "@ + decimal(unique) + " token(s) from tokens.txt"@;
    if duplicates > 0 {
        loaded + " (skipped "@ + decimal(duplicates) + " duplicate "@ + (if duplicates == 1 {
            "token"@
        } else {
            "tokens"@
        }) + ")"@
    } else {
        loaded
    }
}

/// What was read from a credential list.
pub struct TokenList {
    /// The credentials, each once, in order of first occurrence.
    pub tokens: Vec<String>,
    /// How many lines repeated a credential that an earlier line held.
    pub duplicates: usize,
}

/// What stays after removing repetitions has no repetition, is no longer
/// than the list, and holds exactly the items of the list.
pub proof fn lemma_dedup(items: Seq<Seq<char>>)
    ensures
        dedup(items).no_duplicates(),
        dedup(items).len() <= items.len(),
        forall|x: Seq<char>| dedup(items).contains(x) <==> items.contains(x),
    decreases items.len(),
{
    if items.len() > 0 {
        let head = items.drop_last();
        lemma_dedup(head);
        let before = dedup(head);
        assert forall|x: Seq<char>| dedup(items).contains(x) <==> items.contains(x) by {
            assert(dedup(head).contains(x) <==> head.contains(x));
            if items.contains(x) {
                let i = choose|i: int| 0 <= i < items.len() && items[i] == x;
                if i < head.len() {
                    assert(head[i] == x);
                    assert(head.contains(x));
                    let j = choose|j: int| 0 <= j < before.len() && before[j] == x;
                    assert(dedup(items)[j] == x);
                } else if !before.contains(x) {
                    assert(dedup(items)[before.len() as int] == x);
                }
            }
            if dedup(items).contains(x) {
                let j = choose|j: int| 0 <= j < dedup(items).len() && dedup(items)[j] == x;
                if j < before.len() {
                    assert(before[j] == x);
                    assert(before.contains(x));
                    let i = choose|i: int| 0 <= i < head.len() && head[i] == x;
                    assert(items[i] == x);
                } else {
                    assert(items[items.len() - 1] == x);
                }
            }
        }
    }
}

fn holds_text(list: &Vec<String>, text: &String) -> (found: bool)
    ensures
        found == texts(list@).contains(text@),
{
    let mut i: usize = 0;
    while i < list.len()
        invariant
            i <= list@.len(),
            forall|j: int| 0 <= j < i ==> (#[trigger] texts(list@)[j]) != text@,
        decreases list@.len() - i,
    {
        if list[i] == *text {
            assert(texts(list@)[i as int] == text@);
            return true;
        }
        i = i + 1;
    }
    false
}

/// Reads a credential list.
pub fn parse_tokens(content: &str) -> (list: TokenList)
    ensures
        texts(list.tokens@) == listed_tokens(content@),
        list.duplicates == fields(content@, '\n').len() - listed_tokens(content@).len(),
        texts(list.tokens@).no_duplicates(),
{
    let lines = split_fields(content, '\n');
    let mut tokens: Vec<String> = Vec::new();
    let mut duplicates: usize = 0;
    let mut i: usize = 0;
    proof {
        assert(texts(lines@).take(0) =~= Seq::<Seq<char>>::empty());
        assert(texts(tokens@) =~= Seq::<Seq<char>>::empty());
    }
    while i < lines.len()
        invariant
            i <= lines@.len(),
            texts(tokens@) == dedup(texts(lines@).take(i as int)),
            duplicates + tokens@.len() == i,
        decreases lines@.len() - i,
    {
        proof {
            assert(texts(lines@).take(i + 1).drop_last() =~= texts(lines@).take(i as int));
            assert(texts(lines@).take(i + 1).last() == lines@[i as int]@);
        }
        if holds_text(&tokens, &lines[i]) {
            duplicates = duplicates + 1;
        } else {
            let token = lines[i].clone();
            proof {
                assert(texts(tokens@.push(token)) =~= texts(tokens@).push(token@));
            }
            tokens.push(token);
        }
        i = i + 1;
    }
    proof {
        assert(texts(lines@).take(i as int) =~= texts(lines@));
        lemma_dedup(fields(content@, '\n'));
    }
    TokenList { tokens, duplicates }
}

impl TokenList {
    /// The line that reports the load.
    pub fn message(&self) -> (s: String)
        ensures
            s@ == load_report(self.tokens@.len(), self.duplicates as nat),
    {
        let count = to_decimal(self.tokens.len() as u64);
        let start = String::from_str("Loading ").concat(count.as_str()).concat(
            " token(s) from tokens.txt",
        );
        if self.duplicates > 0 {
            let skipped = to_decimal(self.duplicates as u64);
            let noun = if self.duplicates == 1 {
                "token"
            } else {
                "tokens"
            };
            start.concat(" (skipped ").concat(skipped.as_str()).concat(" duplicate ").concat(
                noun,
            ).concat(")")
        } else {
            start
        }
    }
}

} // verus!
