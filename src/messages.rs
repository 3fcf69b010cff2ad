use crate::color::Color;
use vstd::prelude::*;

verus! {

/// The game's message log: an append-only sequence of coloured lines.
pub struct Messages {
    messages: Vec<(String, Color)>,
}

pub open spec fn entry_view(e: (String, Color)) -> (Seq<char>, Color) {
    (e.0@, e.1)
}

impl View for Messages {
    type V = Seq<(Seq<char>, Color)>;

    closed spec fn view(&self) -> Seq<(Seq<char>, Color)> {
        self.messages@.map_values(|e: (String, Color)| entry_view(e))
    }
}

impl Messages {
    pub fn new() -> (m: Self)
        ensures
            m@ == Seq::<(Seq<char>, Color)>::empty(),
    {
        let m = Messages { messages: Vec::new() };
        assert(m@ =~= Seq::<(Seq<char>, Color)>::empty());
        m
    }

    /// Appends one line to the log.
    pub fn add(&mut self, message: &str, color: Color)
        ensures
            final(self)@ == old(self)@.push((message@, color)),
    {
        let text = String::from_str(message);
        self.messages.push((text, color));
        assert(self@ =~= old(self)@.push((message@, color)));
    }

    /// All lines of the log, oldest first.
    pub fn iter(&self) -> (lines: &[(String, Color)])
        ensures
            lines@.map_values(|e: (String, Color)| entry_view(e)) == self@,
    {
        self.messages.as_slice()
    }

    pub fn len(&self) -> (n: usize)
        ensures
            n == self@.len(),
    {
        self.messages.len()
    }
}

} // verus!
