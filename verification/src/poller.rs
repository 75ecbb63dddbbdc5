use vstd::prelude::*;
use crate::text::{owned, str_eq};
use crate::value_map::{ValueMap, compute_changed_keys, changed_keys_spec, seq_views_distinct, seq_has_view};

verus! {

/// The polling and change-highlighting state of the dashboard page: request
/// ids that let late answers be dropped, the previous snapshot's value map,
/// and what the page shows about loading and errors.
pub struct DashboardPoller {
    pub next_request_id: u64,
    pub latest_request_id: u64,
    pub prev_map: Option<ValueMap>,
    pub did_initial_load: bool,
    pub loading: bool,
    pub error: Option<String>,
}

/// What the page does with a failed answer.
#[derive(Debug, Clone, Copy, PartialEq, Eq, Structural)]
pub enum FailureAction {
    /// The answer belongs to an older request: nothing changes.
    Ignore,
    /// The session is gone: stop polling, sign out and go to the login page.
    SessionExpired,
    /// Keep the data on screen and show the error.
    ShowError,
}

/// The next request id after `n` (wrapping at `u64::MAX`).
pub open spec fn next_id(n: u64) -> u64 {
    if n == u64::MAX { 0 } else { (n + 1) as u64 }
}

impl DashboardPoller {
    /// Ids agree: the latest request is the last one handed out.
    pub open spec fn ids_in_step(&self) -> bool {
        self.latest_request_id == self.next_request_id
    }

    /// The state before the first load: loading, nothing shown, no history.
    pub fn initial() -> (r: DashboardPoller)
        ensures
            r.next_request_id == 0,
            r.latest_request_id == 0,
            r.prev_map is None,
            !r.did_initial_load,
            r.loading,
            r.error is None,
    {
        DashboardPoller {
            next_request_id: 0,
            latest_request_id: 0,
            prev_map: None,
            did_initial_load: false,
            loading: true,
            error: None,
        }
    }

    /// Starts a load: hands out a fresh request id, which becomes the only
    /// one whose answer counts, and marks the page loading.
    pub fn start_request(&mut self) -> (id: u64)
        ensures
            id == next_id(old(self).next_request_id),
            final(self).next_request_id == id,
            final(self).latest_request_id == id,
            final(self).loading,
            final(self).error is None,
            final(self).prev_map == old(self).prev_map,
            final(self).did_initial_load == old(self).did_initial_load,
    {
        let id = self.next_request_id.wrapping_add(1);
        self.next_request_id = id;
        self.latest_request_id = id;
        self.loading = true;
        self.error = None;
        id
    }

    /// A successful answer. An answer to an older request is dropped
    /// (`None`, nothing changes). Otherwise the snapshot's value map replaces
    /// the previous one and the keys to highlight are returned: none on the
    /// first snapshot, else the keys whose values are new.
    pub fn on_success(&mut self, request_id: u64, next_map: ValueMap) -> (r: Option<Vec<String>>)
        ensures
            request_id != old(self).latest_request_id ==> r is None && *final(self) == *old(self),
            request_id == old(self).latest_request_id ==> {
                &&& r is Some
                &&& final(self).prev_map == Some(next_map)
                &&& !final(self).loading
                &&& final(self).error is None
                &&& final(self).next_request_id == old(self).next_request_id
                &&& final(self).latest_request_id == old(self).latest_request_id
                &&& final(self).did_initial_load == old(self).did_initial_load
                &&& match old(self).prev_map {
                    None => r.unwrap()@.len() == 0,
                    Some(prev) => seq_views_distinct(r.unwrap()@) && forall|k: Seq<char>|
                        changed_keys_spec(prev.view(), next_map.view()).contains(k) <==> seq_has_view(r.unwrap()@, k),
                }
            },
    {
        if request_id != self.latest_request_id {
            return None;
        }
        let changed = match &self.prev_map {
            Some(prev) => compute_changed_keys(prev, &next_map),
            None => Vec::new(),
        };
        self.prev_map = Some(next_map);
        self.loading = false;
        self.error = None;
        Some(changed)
    }

    /// A failed answer. An answer to an older request is dropped. An expired
    /// session shows the sign-in message; any other error is shown as given,
    /// keeping the data on screen.
    pub fn on_failure(&mut self, request_id: u64, error: String) -> (r: FailureAction)
        ensures
            request_id != old(self).latest_request_id ==> r == FailureAction::Ignore && *final(self) == *old(self),
            request_id == old(self).latest_request_id ==> {
                &&& !final(self).loading
                &&& final(self).prev_map == old(self).prev_map
                &&& final(self).next_request_id == old(self).next_request_id
                &&& final(self).latest_request_id == old(self).latest_request_id
                &&& final(self).did_initial_load == old(self).did_initial_load
                &&& if error@ == "SESSION_EXPIRED"@ {
                    &&& r == FailureAction::SessionExpired
                    &&& final(self).error is Some
                    &&& final(self).error.unwrap()@ == "Your session expired. Please sign in again."@
                } else {
                    &&& r == FailureAction::ShowError
                    &&& final(self).error == Some(error)
                }
            },
    {
        if request_id != self.latest_request_id {
            return FailureAction::Ignore;
        }
        self.loading = false;
        if str_eq(error.as_str(), "SESSION_EXPIRED") {
            self.error = Some(owned("Your session expired. Please sign in again."));
            FailureAction::SessionExpired
        } else {
            self.error = Some(error);
            FailureAction::ShowError
        }
    }

    /// Drops every outstanding request and the history: the ids move on, the
    /// previous value map is forgotten and nothing is loading.
    fn invalidate(&mut self)
        ensures
            final(self).next_request_id == next_id(old(self).next_request_id),
            final(self).latest_request_id == final(self).next_request_id,
            final(self).prev_map is None,
            !final(self).loading,
            final(self).did_initial_load == old(self).did_initial_load,
            final(self).error == old(self).error,
    {
        let id = self.next_request_id.wrapping_add(1);
        self.next_request_id = id;
        self.latest_request_id = id;
        self.prev_map = None;
        self.loading = false;
    }

    /// The sign-in state changed. Signed in: returns whether the initial load
    /// is still due (it is due once per session). Signed out: every request in
    /// flight is dropped and the history cleared, so the next session starts
    /// afresh.
    pub fn on_auth_change(&mut self, is_authenticated: bool) -> (load_now: bool)
        ensures
            is_authenticated ==> load_now == !old(self).did_initial_load && final(self).did_initial_load
                && final(self).next_request_id == old(self).next_request_id
                && final(self).latest_request_id == old(self).latest_request_id
                && final(self).prev_map == old(self).prev_map
                && final(self).loading == old(self).loading,
            !is_authenticated ==> !load_now && !final(self).did_initial_load
                && final(self).next_request_id == next_id(old(self).next_request_id)
                && final(self).latest_request_id == final(self).next_request_id
                && final(self).prev_map is None && !final(self).loading,
            final(self).error == old(self).error,
    {
        if is_authenticated {
            if !self.did_initial_load {
                self.did_initial_load = true;
                true
            } else {
                false
            }
        } else {
            self.invalidate();
            self.did_initial_load = false;
            false
        }
    }

    /// The trend range changed: forget the history so the refetch does not
    /// highlight the whole panel.
    pub fn on_range_change(&mut self)
        ensures
            final(self).prev_map is None,
            final(self).next_request_id == old(self).next_request_id,
            final(self).latest_request_id == old(self).latest_request_id,
            final(self).loading == old(self).loading,
            final(self).did_initial_load == old(self).did_initial_load,
            final(self).error == old(self).error,
    {
        self.prev_map = None;
    }

    /// The page is closed: every request in flight is dropped and the
    /// history forgotten; the loading flag, the error and the initial-load
    /// flag stay as they were.
    pub fn on_cleanup(&mut self)
        ensures
            final(self).next_request_id == next_id(old(self).next_request_id),
            final(self).latest_request_id == final(self).next_request_id,
            final(self).prev_map is None,
            final(self).loading == old(self).loading,
            final(self).error == old(self).error,
            final(self).did_initial_load == old(self).did_initial_load,
    {
        let id = self.next_request_id.wrapping_add(1);
        self.next_request_id = id;
        self.latest_request_id = id;
        self.prev_map = None;
    }

    /// A poll tick loads only when no load is running.
    pub fn should_poll(&self) -> (r: bool)
        ensures
            r == !self.loading,
    {
        !self.loading
    }
}

} // verus!
