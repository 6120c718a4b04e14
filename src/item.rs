use vstd::prelude::*;

verus! {

/// The marker that opens the line of an item: `- [x] ` when it is done, `- [ ] ` when not.
pub open spec fn marker(completed: bool) -> Seq<char> {
    seq!['-', ' ', '[', if completed { 'x' } else { ' ' }, ']', ' ']
}

/// The one-line text form of an item.
pub open spec fn encode(text: Seq<char>, completed: bool) -> Seq<char> {
    marker(completed) + text
}

/// What a line decodes to: the text after the marker and whether the box is checked,
/// or nothing when the line does not open with one of the two markers.
pub open spec fn decode(line: Seq<char>) -> Option<(Seq<char>, bool)> {
    if line.len() >= 6 && line[0] == '-' && line[1] == ' ' && line[2] == '[' && (line[3] == ' '
        || line[3] == 'x') && line[4] == ']' && line[5] == ' ' {
        Some((line.skip(6), line[3] == 'x'))
    } else {
        None
    }
}

/// One entry of a day's checklist.
#[derive(Debug, Default)]
pub struct Item {
    text: String,
    completed: bool,
}

/// A line that is not an item.
#[derive(Debug, Clone, Copy, PartialEq, Eq)]
pub struct ParseError;

impl View for Item {
    type V = (Seq<char>, bool);

    closed spec fn view(&self) -> (Seq<char>, bool) {
        (self.text@, self.completed)
    }
}

impl Item {
    /// A new item, not yet done.
    pub fn new(text: String) -> (r: Item)
        ensures
            r@ == (text@, false),
    {
        Item { text, completed: false }
    }

    /// Flips whether the item is done.
    pub fn toggle(&mut self)
        ensures
            final(self)@ == (old(self)@.0, !old(self)@.1),
    {
        self.completed = !self.completed;
    }

    /// The item's text.
    pub fn text(&self) -> (r: &str)
        ensures
            r@ == self@.0,
    {
        self.text.as_str()
    }

    /// Whether the item is done.
    pub fn completed(&self) -> (r: bool)
        ensures
            r == self@.1,
    {
        self.completed
    }

    /// The item's line: `- [x] <text>` when done, `- [ ] <text>` when not.
    pub fn to_string(&self) -> (r: String)
        ensures
            r@ == encode(self@.0, self@.1),
    {
        let mut r = if self.completed {
            String::from_str("- [x] ")
        } else {
            String::from_str("- [ ] ")
        };
        proof {
            reveal_strlit("- [x] ");
            reveal_strlit("- [ ] ");
        }
        r.append(self.text.as_str());
        r
    }

    /// Reads an item from its line; the rest of the line after the marker is the text, as it is.
    pub fn from_str(line: &str) -> (r: Result<Item, ParseError>)
        ensures
            match r {
                Ok(it) => decode(line@) == Some(it@),
                Err(_) => decode(line@) is None,
            },
    {
        let n = line.unicode_len();
        if n < 6 {
            return Err(ParseError);
        }
        let c0 = line.get_char(0);
        let c1 = line.get_char(1);
        let c2 = line.get_char(2);
        let c3 = line.get_char(3);
        let c4 = line.get_char(4);
        let c5 = line.get_char(5);
        if c0 == '-' && c1 == ' ' && c2 == '[' && (c3 == ' ' || c3 == 'x') && c4 == ']' && c5 == ' ' {
            let text = String::from_str(line.substring_char(6, n));
            Ok(Item { text, completed: c3 == 'x' })
        } else {
            Err(ParseError)
        }
    }
}

/// Decoding the line of an item gives that item back.
pub proof fn lemma_round_trip(text: Seq<char>, completed: bool)
    ensures
        decode(encode(text, completed)) == Some((text, completed)),
{
    let line = encode(text, completed);
    assert(line.skip(6) =~= text);
}

} // verus!
