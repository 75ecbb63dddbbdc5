use vstd::prelude::*;
use crate::text::str_eq;
use crate::forms::can_access_cash_flow;

verus! {

/// What a page does once it knows who is signed in.
#[derive(PartialEq, Eq, Structural, Debug, Clone, Copy)]
pub enum PageGate {
    /// Nobody is signed in: go to `/login`.
    RedirectLogin,
    /// The signed-in role may not open the page: go to `/dashboard`.
    RedirectDashboard,
    /// Signed in but the profile is not loaded yet: check the stored token.
    CheckToken,
    /// Show the page (a page may still hide sections by role).
    Show,
    /// Stay, showing the page's access-denied notice instead of its content.
    Denied,
}

/// The sections of the CTC completeness page a role sees.
#[derive(PartialEq, Eq, Structural, Debug, Clone, Copy)]
pub struct CompletenessAccess {
    /// The page itself: HR, department heads and finance.
    pub page_authorized: bool,
    /// The completeness summary is fetched and shown: HR and department heads.
    pub completeness_visible: bool,
    /// The list of employees without a CTC can be loaded: HR only.
    pub missing_list_enabled: bool,
    /// The department filter is offered (and the departments fetched): HR only.
    pub department_filter_visible: bool,
    /// The compliance section: HR and finance.
    pub compliance_visible: bool,
}

pub open spec fn is_hr(role: Seq<char>) -> bool {
    role == "hr"@
}

pub open spec fn is_department_head(role: Seq<char>) -> bool {
    role == "department_head"@
}

pub open spec fn is_finance(role: Seq<char>) -> bool {
    role == "finance"@
}

/// The sections of the completeness page that `role` sees.
pub open spec fn completeness_access_spec(role: Seq<char>) -> CompletenessAccess {
    CompletenessAccess {
        page_authorized: is_hr(role) || is_department_head(role) || is_finance(role),
        completeness_visible: is_hr(role) || is_department_head(role),
        missing_list_enabled: is_hr(role),
        department_filter_visible: is_hr(role),
        compliance_visible: is_hr(role) || is_finance(role),
    }
}

/// The sections of the completeness page that a signed-in `role` sees.
pub fn completeness_access(role: &str) -> (r: CompletenessAccess)
    ensures
        r == completeness_access_spec(role@),
{
    let hr = str_eq(role, "hr");
    let head = str_eq(role, "department_head");
    let finance = str_eq(role, "finance");
    CompletenessAccess {
        page_authorized: hr || head || finance,
        completeness_visible: hr || head,
        missing_list_enabled: hr,
        department_filter_visible: hr,
        compliance_visible: hr || finance,
    }
}

/// The completeness page's gate: signed out goes to `/login`; a loaded
/// profile whose role may not see the page goes to `/dashboard`; a session
/// whose profile is not loaded yet has its token checked first.
pub open spec fn completeness_gate_spec(authenticated: bool, role: Option<Seq<char>>) -> PageGate {
    if !authenticated {
        PageGate::RedirectLogin
    } else {
        match role {
            None => PageGate::CheckToken,
            Some(r) => if completeness_access_spec(r).page_authorized {
                PageGate::Show
            } else {
                PageGate::RedirectDashboard
            },
        }
    }
}

/// Decides what the completeness page does for the current session.
pub fn completeness_page_gate(authenticated: bool, role: Option<&str>) -> (r: PageGate)
    ensures
        r == completeness_gate_spec(authenticated, match role { Some(s) => Some(s@), None => None }),
{
    if !authenticated {
        return PageGate::RedirectLogin;
    }
    match role {
        None => PageGate::CheckToken,
        Some(r) => {
            if completeness_access(r).page_authorized {
                PageGate::Show
            } else {
                PageGate::RedirectDashboard
            }
        },
    }
}

/// The cash-flow page's gate: signed out goes to `/login`; finance and
/// admin see the page and load its data; any other role (or a profile not
/// loaded yet, whose role reads as empty) gets the access-denied notice and
/// no request is made.
pub open spec fn cash_flow_gate_spec(authenticated: bool, role: Seq<char>) -> PageGate {
    if !authenticated {
        PageGate::RedirectLogin
    } else if role == "finance"@ || role == "admin"@ {
        PageGate::Show
    } else {
        PageGate::Denied
    }
}

/// Decides what the cash-flow page does for the current session.
pub fn cash_flow_page_gate(authenticated: bool, role: &str) -> (r: PageGate)
    ensures
        r == cash_flow_gate_spec(authenticated, role@),
{
    if !authenticated {
        PageGate::RedirectLogin
    } else if can_access_cash_flow(role) {
        PageGate::Show
    } else {
        PageGate::Denied
    }
}

} // verus!
