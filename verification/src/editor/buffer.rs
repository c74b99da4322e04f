use vstd::prelude::*;

verus! {

/// The loaded document: an ordered sequence of text lines, each stored
/// without its line terminator. Append-only; lines keep insertion order.
pub struct Buffer {
    pub text: Vec<String>,
}

impl View for Buffer {
    type V = Seq<Seq<char>>;

    open spec fn view(&self) -> Seq<Seq<char>> {
        self.text.deep_view()
    }
}

impl Default for Buffer {
    fn default() -> (b: Buffer)
        ensures
            b@ == Seq::<Seq<char>>::empty(),
    {
        let text: Vec<String> = Vec::new();
        proof {
            assert(text.deep_view() =~= Seq::<Seq<char>>::empty());
        }
        Buffer { text }
    }
}

impl Buffer {
    /// Push a copy of `s` onto the end of the document.
    pub fn append(&mut self, s: &str)
        ensures
            final(self)@ == old(self)@.push(s@),
    {
        let ghost prev = self.text.deep_view();
        self.text.push(s.to_owned());
        proof {
            assert(self.text.deep_view() =~= prev.push(s@));
        }
    }

    /// The line at row `i`, or nothing when `i` is past the end.
    pub fn get(&self, i: usize) -> (r: Option<&String>)
        ensures
            match r {
                Some(line) => i < self@.len() && line@ == self@[i as int],
                None => i >= self@.len(),
            },
    {
        if i < self.text.len() {
            Some(&self.text[i])
        } else {
            None
        }
    }

    /// Whether the document holds no lines at all.
    pub fn is_empty(&self) -> (r: bool)
        ensures
            r == (self@.len() == 0),
    {
        self.text.len() == 0
    }
}

} // verus!
