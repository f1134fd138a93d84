//! Completion of chat commands: a set of words, asked for the words that
//! start with what has been typed.
use vstd::prelude::*;
use vstd::string::StrSliceExecFns;

verus! {

pub struct Trie {
    words: Vec<String>,
}

pub open spec fn text_of(s: String) -> Seq<char> {
    s@
}

pub open spec fn starts_with(prefix: Seq<char>) -> spec_fn(Seq<char>) -> bool {
    |w: Seq<char>| prefix.is_prefix_of(w)
}

impl View for Trie {
    type V = Seq<Seq<char>>;

    /// The words, in the order they were first inserted.
    closed spec fn view(&self) -> Seq<Seq<char>> {
        self.words@.map_values(|s: String| text_of(s))
    }
}

fn has_prefix(prefix: &str, word: &str) -> (r: bool)
    ensures
        r == prefix@.is_prefix_of(word@),
{
    let n = prefix.unicode_len();
    let m = word.unicode_len();
    if n > m {
        return false;
    }
    let mut i: usize = 0;
    while i < n
        invariant
            n == prefix@.len(),
            m == word@.len(),
            n <= m,
            i <= n,
            forall|k: int| 0 <= k < i ==> prefix@[k] == word@[k],
        decreases n - i,
    {
        if prefix.get_char(i) != word.get_char(i) {
            return false;
        }
        i = i + 1;
    }
    true
}

impl Trie {
    pub fn new() -> (r: Trie)
        ensures
            r@ == Seq::<Seq<char>>::empty(),
    {
        Trie { words: Vec::new() }
    }

    pub fn contains(&self, word: &str) -> (r: bool)
        ensures
            r == self@.contains(word@),
    {
        let mut i: usize = 0;
        while i < self.words.len()
            invariant
                i <= self.words@.len(),
                forall|k: int| 0 <= k < i ==> self.words@[k]@ != word@,
            decreases self.words@.len() - i,
        {
            if self.words[i].as_str().unicode_len() == word.unicode_len() && has_prefix(word, self.words[i].as_str()) {
                assert(self.words@[i as int]@ =~= word@);
                assert(self@[i as int] == word@);
                return true;
            }
            i = i + 1;
        }
        assert forall|k: int| 0 <= k < self@.len() implies self@[k] != word@ by {
            assert(self@[k] == self.words@[k]@);
        }
        false
    }

    /// Adds a word; a word already there is not added twice.
    pub fn insert(&mut self, word: &str)
        ensures
            old(self)@.contains(word@) ==> final(self)@ == old(self)@,
            !old(self)@.contains(word@) ==> final(self)@ == old(self)@.push(word@),
    {
        if !self.contains(word) {
            let w = word.to_owned();
            self.words.push(w);
            assert(self@ =~= old(self)@.push(word@));
        }
    }

    /// The words that start with `prefix`, in insertion order.
    pub fn suggest_completions(&self, prefix: &str) -> (r: Vec<String>)
        ensures
            r@.map_values(|s: String| text_of(s)) == self@.filter(starts_with(prefix@)),
    {
        let ghost ws = self@;
        let ghost pred = starts_with(prefix@);
        let mut out: Vec<String> = Vec::new();
        let mut i: usize = 0;
        proof {
            reveal(Seq::filter);
            assert(ws.take(0) =~= Seq::<Seq<char>>::empty());
            assert(out@.map_values(|s: String| text_of(s)) =~= Seq::<Seq<char>>::empty());
        }
        while i < self.words.len()
            invariant
                ws == self@,
                pred == starts_with(prefix@),
                ws.len() == self.words@.len(),
                i <= ws.len(),
                out@.map_values(|s: String| text_of(s)) == ws.take(i as int).filter(pred),
            decreases ws.len() - i,
        {
            let ghost t = ws.take(i + 1);
            let ghost before = out@;
            proof {
                reveal(Seq::filter);
                assert(t.drop_last() =~= ws.take(i as int));
                assert(t.last() == self.words@[i as int]@);
            }
            if has_prefix(prefix, self.words[i].as_str()) {
                out.push(self.words[i].clone());
                assert(out@.map_values(|s: String| text_of(s)) =~= before.map_values(|s: String| text_of(s)).push(t.last()));
            }
            assert(out@.map_values(|s: String| text_of(s)) == t.filter(pred));
            i = i + 1;
        }
        proof {
            assert(ws.take(i as int) =~= ws);
        }
        out
    }
}

} // verus!
