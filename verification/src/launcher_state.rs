//! State of the application launcher overlay: whether it is shown, the typed
//! query, the matching applications and the highlighted one.

use crate::text::{chars_of, string_of};
use vstd::prelude::*;

verus! {

/// One application listed by the launcher.
#[derive(Clone, Debug)]
pub struct LauncherResult {
    pub name: String,
    pub comment: Option<String>,
    pub icon: Option<String>,
}

#[derive(Clone, Debug)]
pub struct LauncherState {
    pub visible: bool,
    pub query: String,
    pub results: Vec<LauncherResult>,
    pub selected: usize,
}

impl Default for LauncherState {
    fn default() -> (s: Self)
        ensures
            !s.visible,
            s.query@ == Seq::<char>::empty(),
            s.results@.len() == 0,
            s.selected == 0,
    {
        LauncherState { visible: false, query: String::new(), results: Vec::new(), selected: 0 }
    }
}

impl LauncherState {
    /// Show the launcher with an empty query and the first result highlighted.
    pub fn open(&mut self)
        ensures
            final(self).visible,
            final(self).query@ == Seq::<char>::empty(),
            final(self).selected == 0,
            final(self).results == old(self).results,
    {
        self.visible = true;
        self.query = String::new();
        self.selected = 0;
    }

    /// Hide the launcher; the query and results stay.
    pub fn close(&mut self)
        ensures
            !final(self).visible,
            final(self).query == old(self).query,
            final(self).results == old(self).results,
            final(self).selected == old(self).selected,
    {
        self.visible = false;
    }

    /// Append a character to the query.
    pub fn push_char(&mut self, c: char)
        ensures
            final(self).query@ == old(self).query@.push(c),
            final(self).visible == old(self).visible,
            final(self).results == old(self).results,
            final(self).selected == old(self).selected,
    {
        let mut v = chars_of(self.query.as_str());
        v.push(c);
        self.query = string_of(v.as_slice());
    }

    /// Remove the last character of the query, if any.
    pub fn pop_char(&mut self)
        ensures
            old(self).query@.len() > 0 ==> final(self).query@ == old(self).query@.drop_last(),
            old(self).query@.len() == 0 ==> final(self).query@ == old(self).query@,
            final(self).visible == old(self).visible,
            final(self).results == old(self).results,
            final(self).selected == old(self).selected,
    {
        let v = chars_of(self.query.as_str());
        if v.len() > 0 {
            let w = crate::text::sub_vec(v.as_slice(), 0, v.len() - 1);
            proof {
                assert(w@ =~= v@.drop_last());
            }
            self.query = string_of(w.as_slice());
        }
    }

    /// Highlight the result above, where there is one.
    pub fn move_up(&mut self)
        ensures
            final(self).selected == if old(self).selected > 0 {
                old(self).selected - 1
            } else {
                0
            },
            final(self).visible == old(self).visible,
            final(self).query == old(self).query,
            final(self).results == old(self).results,
    {
        if self.selected > 0 {
            self.selected -= 1;
        }
    }

    /// Highlight the result below, where there is one.
    pub fn move_down(&mut self)
        ensures
            final(self).selected == if old(self).selected + 1 < old(self).results@.len() {
                old(self).selected + 1
            } else {
                old(self).selected as int
            },
            final(self).visible == old(self).visible,
            final(self).query == old(self).query,
            final(self).results == old(self).results,
    {
        if self.results.len() > 0 && self.selected < self.results.len() - 1 {
            self.selected += 1;
        }
    }
}

/// Removing the last character undoes typing one: the query is as before.
pub proof fn law_pop_undoes_push(query: Seq<char>, c: char)
    ensures
        query.push(c).drop_last() == query,
{
    assert(query.push(c).drop_last() =~= query);
}

/// Moving down keeps the highlight on one of the results where it was on one.
pub proof fn law_move_down_in_range(selected: usize, results: nat)
    requires
        selected < results,
    ensures
        (if selected + 1 < results {
            selected + 1
        } else {
            selected as int
        }) < results,
{
}

} // verus!
