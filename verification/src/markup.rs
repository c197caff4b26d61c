//! Inline keyboards: rows of callback buttons attached to replies.

use vstd::prelude::*;

verus! {

/// One button in an inline keyboard.
#[derive(Debug, Clone)]
pub struct Button {
    text: String,
    data: String,
}

/// What a button holds: its label and its callback data.
pub struct ButtonView {
    pub text: Seq<char>,
    pub data: Seq<char>,
}

impl View for Button {
    type V = ButtonView;

    closed spec fn view(&self) -> ButtonView {
        ButtonView { text: self.text@, data: self.data@ }
    }
}

/// The views of a row of buttons.
pub open spec fn buttons_view(row: Seq<Button>) -> Seq<ButtonView> {
    row.map_values(|b: Button| b@)
}

/// An inline keyboard: rows of buttons.
#[derive(Debug, Clone)]
pub struct Markup {
    rows: Vec<Vec<Button>>,
}

impl View for Markup {
    type V = Seq<Seq<ButtonView>>;

    closed spec fn view(&self) -> Seq<Seq<ButtonView>> {
        self.rows@.map_values(|r: Vec<Button>| buttons_view(r@))
    }
}

impl Button {
    /// A button that sends `data` back to the bot when tapped.
    pub fn callback(text: &str, data: &str) -> (b: Button)
        ensures
            b@.text == text@,
            b@.data == data@,
    {
        Button { text: text.to_owned(), data: data.to_owned() }
    }

    /// The button's label.
    pub fn text(&self) -> (r: &str)
        ensures
            r@ == self@.text,
    {
        self.text.as_str()
    }

    /// The data sent back when the button is tapped.
    pub fn data(&self) -> (r: &str)
        ensures
            r@ == self@.data,
    {
        self.data.as_str()
    }
}

impl Markup {
    /// An empty keyboard.
    pub fn new() -> (m: Markup)
        ensures
            m@ == Seq::<Seq<ButtonView>>::empty(),
    {
        let m = Markup { rows: Vec::new() };
        assert(m@ =~= Seq::<Seq<ButtonView>>::empty());
        m
    }

    /// Append a row of buttons.
    pub fn row(self, buttons: Vec<Button>) -> (m: Markup)
        ensures
            m@ == self@.push(buttons_view(buttons@)),
    {
        let mut m = self;
        m.rows.push(buttons);
        assert(m@ =~= self@.push(buttons_view(buttons@)));
        m
    }

    /// Whether there are no buttons (every row is empty).
    pub fn is_empty(&self) -> (r: bool)
        ensures
            r == forall|i: int| 0 <= i < self@.len() ==> #[trigger] self@[i].len() == 0,
    {
        let mut i: usize = 0;
        while i < self.rows.len()
            invariant
                i <= self.rows.len(),
                forall|j: int| 0 <= j < i ==> #[trigger] self@[j].len() == 0,
            decreases self.rows.len() - i,
        {
            if self.rows[i].len() != 0 {
                assert(self@[i as int].len() != 0);
                return false;
            }
            i = i + 1;
        }
        true
    }

    /// The rows of buttons.
    pub fn rows(&self) -> (r: &Vec<Vec<Button>>)
        ensures
            r@.map_values(|row: Vec<Button>| buttons_view(row@)) == self@,
    {
        &self.rows
    }
}

impl Default for Markup {
    fn default() -> (m: Markup)
        ensures
            m@ == Seq::<Seq<ButtonView>>::empty(),
    {
        Markup::new()
    }
}

} // verus!
