//! Which icon the tray shows.

use crate::error::AppError;
use vstd::prelude::*;

verus! {

/// What the tray shows: whether there are unread notifications.
#[derive(Debug)]
pub struct TrayManager {
    has_unread: bool,
}

impl View for TrayManager {
    type V = bool;

    closed spec fn view(&self) -> bool {
        self.has_unread
    }
}

impl TrayManager {
    /// A tray that shows no unread notifications.
    pub fn new() -> (r: TrayManager)
        ensures
            !r@,
    {
        TrayManager { has_unread: false }
    }

    /// Takes note of whether there are unread notifications, and says
    /// whether the icon is to be changed: not where it shows that already.
    pub fn update_icon(&mut self, has_unread: bool) -> (r: bool)
        ensures
            final(self)@ == has_unread,
            r == (old(self)@ != has_unread),
    {
        let changed = self.has_unread != has_unread;
        self.has_unread = has_unread;
        changed
    }

    /// Takes note of whether there are unread notifications; the icon is
    /// to be set whatever it shows.
    pub fn force_update_icon(&mut self, has_unread: bool)
        ensures
            final(self)@ == has_unread,
    {
        self.has_unread = has_unread;
    }

    /// Whether a count of unread notifications, or the failure to count
    /// them, means that there are unread notifications.
    pub fn has_unread_in(count: &Result<i32, AppError>) -> (r: bool)
        ensures
            r == (count is Ok && count->Ok_0 > 0),
    {
        match count {
            Ok(c) => *c > 0,
            Err(_) => false,
        }
    }
}

} // verus!
