//! Top-level windows: the options the toolkit takes as integers, the result
//! of its file dialogs, and the list of created windows that is kept so that
//! all of them can be destroyed at shutdown.

use vstd::prelude::*;
use crate::text::{decode_lossy, utf8_lossy};

verus! {

/// A `Window` can either have a menubar or not; this enum represents that decision.
#[derive(Clone, Copy, Debug)]
pub enum WindowType {
    HasMenubar,
    NoMenubar,
}

impl WindowType {
    /// Whether a window of this type has a menubar.
    pub fn has_menubar(self) -> (r: bool)
        ensures
            r <==> self is HasMenubar,
    {
        match self {
            WindowType::HasMenubar => true,
            WindowType::NoMenubar => false,
        }
    }
}

/// The integer by which the toolkit takes the boolean option `b`.
pub open spec fn flag_value(b: bool) -> i32 {
    if b {
        1
    } else {
        0
    }
}

/// The boolean option that the toolkit reports as the integer `v`: any value
/// but zero is set.
pub open spec fn flag_meaning(v: i32) -> bool {
    v != 0
}

/// The integer handed to the toolkit for the boolean option `b`.
pub fn native_flag(b: bool) -> (r: i32)
    ensures
        r == flag_value(b),
{
    if b {
        1
    } else {
        0
    }
}

/// The boolean option that the toolkit reports as the integer `v`.
pub fn flag_is_set(v: i32) -> (r: bool)
    ensures
        r == flag_meaning(v),
{
    v != 0
}

/// A boolean option handed to the toolkit reads back unchanged.
pub proof fn lemma_flag_round_trip(b: bool)
    ensures
        flag_meaning(flag_value(b)) == b,
{
}

/// The path that a file or folder dialog returned: `None` where the user
/// cancelled it (the toolkit returned no text), else the returned bytes
/// decoded as UTF-8, each invalid sequence giving U+FFFD.
pub fn dialog_selection(raw: Option<&[u8]>) -> (r: Option<String>)
    ensures
        raw is None <==> r is None,
        raw matches Some(b) ==> r matches Some(s) && s@ == utf8_lossy(b@),
{
    match raw {
        None => None,
        Some(b) => Some(decode_lossy(b)),
    }
}

/// The top-level windows created so far, in the order of their creation.
pub struct WindowRegistry<W> {
    windows: Vec<W>,
}

impl<W> View for WindowRegistry<W> {
    type V = Seq<W>;

    closed spec fn view(&self) -> Seq<W> {
        self.windows@
    }
}

impl<W> WindowRegistry<W> {
    /// A registry that holds no window.
    pub fn new() -> (r: Self)
        ensures
            r@ == Seq::<W>::empty(),
    {
        WindowRegistry { windows: Vec::new() }
    }

    /// The number of windows registered.
    pub fn len(&self) -> (r: usize)
        ensures
            r == self@.len(),
    {
        self.windows.len()
    }

    /// Records a newly created window after those already registered.
    pub fn register(&mut self, window: W)
        ensures
            final(self)@ == old(self)@.push(window),
    {
        self.windows.push(window);
    }

    /// Hands out every registered window, in the order of creation, and
    /// leaves the registry empty: each window is handed out once.
    pub fn drain_all(&mut self) -> (r: Vec<W>)
        ensures
            r@ == old(self)@,
            final(self)@ == Seq::<W>::empty(),
    {
        let mut out: Vec<W> = Vec::new();
        std::mem::swap(&mut out, &mut self.windows);
        out
    }
}

} // verus!
