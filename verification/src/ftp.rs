//! Anonymous FTP logins, followed per flow.
//!
//! A flow gets an entry once either of the two anonymous credentials was
//! seen in one of its payloads. When both were seen, the login is reported,
//! once.

use crate::alert::{enumerates, lemma_push_contains, Alert};
use crate::identity::FlowIdentity;
use crate::registry::{lists, lookup, Registry};
use vstd::prelude::*;

verus! {

/// What is remembered of a flow's login: which of the two anonymous
/// credentials were seen, and whether an alert went out.
#[derive(Clone, Copy, Debug, PartialEq, Eq, Structural)]
pub struct FtpLogin {
    pub anon_user_seen: bool,
    pub anon_pass_seen: bool,
    pub notified: bool,
}

impl FtpLogin {
    /// Both credentials were seen and no alert went out yet.
    pub open spec fn is_due(self) -> bool {
        self.anon_user_seen && self.anon_pass_seen && !self.notified
    }

    /// The entry once its alert, if one is due, went out.
    pub open spec fn latched(self) -> FtpLogin {
        FtpLogin {
            anon_user_seen: self.anon_user_seen,
            anon_pass_seen: self.anon_pass_seen,
            notified: self.notified || self.is_due(),
        }
    }

    /// The entry of a flow after a payload in which the user name was seen
    /// if `user`, and the password if `pass`.
    pub open spec fn after(prev: Option<FtpLogin>, user: bool, pass: bool) -> FtpLogin {
        match prev {
            Some(known) => FtpLogin {
                anon_user_seen: known.anon_user_seen || user,
                anon_pass_seen: known.anon_pass_seen || pass,
                notified: known.notified,
            },
            None => FtpLogin { anon_user_seen: user, anon_pass_seen: pass, notified: false },
        }
    }
}

/// The table after a payload of `flow` in which the user name was seen if
/// `user`, and the password if `pass`. A payload with neither leaves the
/// table alone.
pub open spec fn noted(
    logins: Map<FlowIdentity, FtpLogin>,
    flow: FlowIdentity,
    user: bool,
    pass: bool,
) -> Map<FlowIdentity, FtpLogin> {
    if user || pass {
        logins.insert(flow, FtpLogin::after(lookup(logins, flow), user, pass))
    } else {
        logins
    }
}

/// The table once every alert that is due went out.
pub open spec fn latched(logins: Map<FlowIdentity, FtpLogin>) -> Map<FlowIdentity, FtpLogin> {
    Map::new(
        |flow: FlowIdentity| logins.contains_key(flow),
        |flow: FlowIdentity| logins[flow].latched(),
    )
}

/// The alerts that are due on the table.
pub open spec fn due_alerts(logins: Map<FlowIdentity, FtpLogin>) -> Set<Alert> {
    Set::new(
        |alert: Alert|
            alert matches Alert::FtpAnonymousLogin { flow } && logins.contains_key(flow)
                && logins[flow].is_due(),
    )
}

/// Accounts for a payload of `flow` in which the user name was seen if
/// `user`, and the password if `pass`.
pub fn note_credentials(
    logins: &mut Registry<FlowIdentity, FtpLogin>,
    flow: FlowIdentity,
    user: bool,
    pass: bool,
)
    ensures
        final(logins)@ == noted(old(logins)@, flow, user, pass),
{
    if user || pass {
        let next = match logins.get(&flow) {
            Some(known) => FtpLogin {
                anon_user_seen: known.anon_user_seen || user,
                anon_pass_seen: known.anon_pass_seen || pass,
                notified: known.notified,
            },
            None => FtpLogin { anon_user_seen: user, anon_pass_seen: pass, notified: false },
        };
        logins.insert(flow, next);
    }
}

/// Reports every flow on which both credentials were seen and that was not
/// reported before, and latches it. The alerts come in no particular order.
pub fn sweep(logins: &mut Registry<FlowIdentity, FtpLogin>) -> (alerts: Vec<Alert>)
    ensures
        final(logins)@ == latched(old(logins)@),
        enumerates(alerts@, due_alerts(old(logins)@)),
{
    let ghost before = logins@;
    let entries = logins.entries();
    let mut alerts: Vec<Alert> = Vec::new();
    let mut i: usize = 0;
    while i < entries.len()
        invariant
            i <= entries.len(),
            lists(entries@, before),
            logins@.dom() =~= before.dom(),
            forall|j: int|
                0 <= j < i ==> logins@[(#[trigger] entries@[j]).0] == entries@[j].1.latched(),
            forall|j: int|
                i <= j < entries.len() ==> logins@[(#[trigger] entries@[j]).0] == entries@[j].1,
            alerts@.no_duplicates(),
            forall|alert: Alert|
                alerts@.contains(alert) <==> exists|j: int|
                    0 <= j < i && (#[trigger] entries@[j]).1.is_due() && alert == (
                    Alert::FtpAnonymousLogin { flow: entries@[j].0 }),
        decreases entries.len() - i,
    {
        let (flow, login) = entries[i];
        let ghost raised = alerts@;
        if login.anon_user_seen && login.anon_pass_seen && !login.notified {
            logins.insert(
                flow,
                FtpLogin { anon_user_seen: true, anon_pass_seen: true, notified: true },
            );
            let alert = Alert::FtpAnonymousLogin { flow };
            proof {
                lemma_push_contains(raised, alert);
                if raised.contains(alert) {
                    let j = choose|j: int|
                        0 <= j < i && (#[trigger] entries@[j]).1.is_due() && alert == (
                        Alert::FtpAnonymousLogin { flow: entries@[j].0 });
                    assert(entries@[j].0 == entries@[i as int].0);
                }
            }
            alerts.push(alert);
        }
        proof {
            assert forall|j: int| 0 <= j < i + 1 implies logins@[(#[trigger] entries@[j]).0]
                == entries@[j].1.latched() by {
                if j < i {
                    assert(entries@[j].0 != entries@[i as int].0);
                }
            }
            assert forall|j: int| i + 1 <= j < entries.len() implies logins@[(
            #[trigger] entries@[j]).0] == entries@[j].1 by {
                assert(entries@[i as int].0 != entries@[j].0);
            }
            assert(before.contains_key(entries@[i as int].0));
            assert forall|alert: Alert|
                alerts@.contains(alert) <==> exists|j: int|
                    0 <= j < i + 1 && (#[trigger] entries@[j]).1.is_due() && alert == (
                    Alert::FtpAnonymousLogin { flow: entries@[j].0 }) by {
                if alerts@.contains(alert) {
                    if raised.contains(alert) {
                        let j = choose|j: int|
                            0 <= j < i && (#[trigger] entries@[j]).1.is_due() && alert == (
                            Alert::FtpAnonymousLogin { flow: entries@[j].0 });
                        assert(0 <= j < i + 1 && entries@[j].1.is_due());
                    } else {
                        assert(entries@[i as int].1.is_due());
                    }
                }
                if exists|j: int|
                    0 <= j < i + 1 && (#[trigger] entries@[j]).1.is_due() && alert == (
                    Alert::FtpAnonymousLogin { flow: entries@[j].0 }) {
                    let j = choose|j: int|
                        0 <= j < i + 1 && (#[trigger] entries@[j]).1.is_due() && alert == (
                        Alert::FtpAnonymousLogin { flow: entries@[j].0 });
                    if j < i {
                        assert(raised.contains(alert));
                    }
                }
            }
        }
        i += 1;
    }
    proof {
        assert forall|flow: FlowIdentity| #[trigger] before.contains_key(flow) implies logins@[flow]
            == before[flow].latched() by {
            let j = choose|j: int| 0 <= j < entries@.len() && (#[trigger] entries@[j]).0 == flow;
            assert(logins@[entries@[j].0] == entries@[j].1.latched());
        }
        assert(logins@ =~= latched(before));
        assert forall|alert: Alert| alerts@.contains(alert) <==> due_alerts(before).contains(
            alert,
        ) by {
            if alerts@.contains(alert) {
                let j = choose|j: int|
                    0 <= j < i && (#[trigger] entries@[j]).1.is_due() && alert == (
                    Alert::FtpAnonymousLogin { flow: entries@[j].0 });
                assert(before.contains_key(entries@[j].0));
            }
            if due_alerts(before).contains(alert) {
                let flow = alert->FtpAnonymousLogin_flow;
                let j = choose|j: int|
                    0 <= j < entries@.len() && (#[trigger] entries@[j]).0 == flow;
                assert(entries@[j].1 == before[flow]);
                assert(entries@[j].1.is_due());
            }
        }
    }
    alerts
}

} // verus!
