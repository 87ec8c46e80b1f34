//! Telegram inline keyboards: buttons with callback data, laid out in rows,
//! and the pagination row used by paged command views.

use vstd::prelude::*;
use crate::text::chars_to_string;
use crate::text::decimal;
use crate::text::push_decimal;
use crate::text::push_str;
use crate::text::str_chars;

verus! {

/// A button's label and callback data, as plain text.
pub type ButtonView = (Seq<char>, Option<Seq<char>>);

/// One inline keyboard button.
#[derive(Debug, Clone)]
pub struct InlineKeyboardButton {
    pub text: String,
    pub callback_data: Option<String>,
}

impl View for InlineKeyboardButton {
    type V = ButtonView;

    open spec fn view(&self) -> ButtonView {
        (
            self.text@,
            match self.callback_data {
                Some(d) => Some(d@),
                None => None,
            },
        )
    }
}

/// The views of a row of buttons.
pub open spec fn row_view(r: Seq<InlineKeyboardButton>) -> Seq<ButtonView> {
    Seq::new(r.len(), |i: int| r[i]@)
}

/// The views of several rows of buttons.
pub open spec fn rows_view(rows: Seq<Vec<InlineKeyboardButton>>) -> Seq<Seq<ButtonView>> {
    Seq::new(rows.len(), |i: int| row_view(rows[i]@))
}

/// An inline keyboard: rows of buttons.
#[derive(Debug, Clone)]
pub struct InlineKeyboardMarkup {
    pub inline_keyboard: Vec<Vec<InlineKeyboardButton>>,
}

impl View for InlineKeyboardMarkup {
    type V = Seq<Seq<ButtonView>>;

    open spec fn view(&self) -> Seq<Seq<ButtonView>> {
        rows_view(self.inline_keyboard@)
    }
}

/// Builds an inline keyboard row by row.
#[derive(Debug, Clone)]
pub struct InlineKeyboardBuilder {
    rows: Vec<Vec<InlineKeyboardButton>>,
    current: Vec<InlineKeyboardButton>,
}

impl View for InlineKeyboardBuilder {
    /// The finished rows and the row being filled.
    type V = (Seq<Seq<ButtonView>>, Seq<ButtonView>);

    closed spec fn view(&self) -> (Seq<Seq<ButtonView>>, Seq<ButtonView>) {
        (rows_view(self.rows@), row_view(self.current@))
    }
}

/// The rows a builder produces: the finished rows, then the current row if
/// it holds any button.
pub open spec fn built_rows(b: (Seq<Seq<ButtonView>>, Seq<ButtonView>)) -> Seq<Seq<ButtonView>> {
    if b.1.len() > 0 {
        b.0.push(b.1)
    } else {
        b.0
    }
}

/// A button holding the given label and callback data.
pub fn make_button(text: &str, data: &str) -> (b: InlineKeyboardButton)
    ensures
        b@ == (text@, Some(data@)),
{
    InlineKeyboardButton { text: String::from_str(text), callback_data: Some(String::from_str(data)) }
}

proof fn lemma_row_view_push(r: Seq<InlineKeyboardButton>, b: InlineKeyboardButton)
    ensures
        row_view(r.push(b)) == row_view(r).push(b@),
{
    assert(row_view(r.push(b)) =~= row_view(r).push(b@));
}

proof fn lemma_rows_view_push(rows: Seq<Vec<InlineKeyboardButton>>, r: Vec<InlineKeyboardButton>)
    ensures
        rows_view(rows.push(r)) == rows_view(rows).push(row_view(r@)),
{
    assert(rows_view(rows.push(r)) =~= rows_view(rows).push(row_view(r@)));
}

impl InlineKeyboardBuilder {
    /// An empty builder.
    pub fn new() -> (b: Self)
        ensures
            b@ == (Seq::<Seq<ButtonView>>::empty(), Seq::<ButtonView>::empty()),
    {
        let b = InlineKeyboardBuilder { rows: Vec::new(), current: Vec::new() };
        assert(b@.0 =~= Seq::<Seq<ButtonView>>::empty());
        assert(b@.1 =~= Seq::<ButtonView>::empty());
        b
    }

    /// Add a callback button to the current row.
    pub fn button(self, text: &str, data: &str) -> (b: Self)
        ensures
            b@ == (self@.0, self@.1.push((text@, Some(data@)))),
    {
        let mut s = self;
        let btn = make_button(text, data);
        proof {
            lemma_row_view_push(s.current@, btn);
        }
        s.current.push(btn);
        s
    }

    /// Close the current row (if it holds any button) and start a new one.
    pub fn new_row(self) -> (b: Self)
        ensures
            b@ == (built_rows(self@), Seq::<ButtonView>::empty()),
    {
        let mut s = self;
        if s.current.len() > 0 {
            let mut row: Vec<InlineKeyboardButton> = Vec::new();
            std::mem::swap(&mut row, &mut s.current);
            proof {
                lemma_rows_view_push(s.rows@, row);
            }
            s.rows.push(row);
        }
        assert(row_view(s.current@) =~= Seq::<ButtonView>::empty());
        s
    }

    /// The finished keyboard.
    pub fn build(self) -> (m: InlineKeyboardMarkup)
        ensures
            m@ == built_rows(self@),
    {
        let mut s = self;
        if s.current.len() > 0 {
            let mut row: Vec<InlineKeyboardButton> = Vec::new();
            std::mem::swap(&mut row, &mut s.current);
            proof {
                lemma_rows_view_push(s.rows@, row);
            }
            s.rows.push(row);
        }
        InlineKeyboardMarkup { inline_keyboard: s.rows }
    }

    /// A builder whose current row holds the pagination buttons for page
    /// `page` (0-indexed) of `total` pages.
    pub fn pagination(prefix: &str, page: usize, total: usize) -> (b: Self)
        ensures
            b@ == (Seq::<Seq<ButtonView>>::empty(), pagination_row(prefix@, page as nat, total as nat)),
    {
        let b = Self::new();
        let b = if page > 0 {
            let data = page_callback_string(prefix, (page - 1) as u64);
            b.button("« Prev", data.as_str())
        } else {
            b
        };
        let b = if page < total && total - page > 1 {
            let data = page_callback_string(prefix, (page + 1) as u64);
            b.button("Next »", data.as_str())
        } else {
            b
        };
        assert(b@.1 =~= pagination_row(prefix@, page as nat, total as nat));
        b
    }
}

/// Callback data selecting page `page` of a paged view: `<prefix>:page:<page>`.
pub open spec fn page_callback(prefix: Seq<char>, page: nat) -> Seq<char> {
    prefix + ":page:"@ + decimal(page)
}

/// The pagination row for page `page` (0-indexed) of `total` pages: a
/// "previous" button unless on the first page, and a "next" button unless on
/// the last one.
pub open spec fn pagination_row(prefix: Seq<char>, page: nat, total: nat) -> Seq<ButtonView> {
    let prev: Seq<ButtonView> = if page > 0 {
        seq![("« Prev"@, Some(page_callback(prefix, (page - 1) as nat)))]
    } else {
        seq![]
    };
    let next: Seq<ButtonView> = if page + 1 < total {
        seq![("Next »"@, Some(page_callback(prefix, page + 1)))]
    } else {
        seq![]
    };
    prev + next
}

fn page_callback_string(prefix: &str, page: u64) -> (s: String)
    ensures
        s@ == page_callback(prefix@, page as nat),
{
    let mut out = str_chars(prefix);
    push_str(&mut out, ":page:");
    push_decimal(&mut out, page);
    chars_to_string(&out)
}

} // verus!
