//! The alerts that the detectors raise.

use crate::identity::{FlowIdentity, HostPair, IcmpKey};
use crate::text::{address_text, append_address, append_decimal, decimal_text};
use vstd::prelude::*;
use vstd::string::StringExecFns;

verus! {

/// An anomaly, reported once for the entity that it names.
#[derive(Clone, Copy, Debug, PartialEq, Eq, Structural)]
pub enum Alert {
    /// More than ten destination-unreachable messages went from one host to
    /// another: a possible UDP scan.
    UdpScan { key: IcmpKey },
    /// Both anonymous credentials were seen on one flow.
    FtpAnonymousLogin { flow: FlowIdentity },
    /// More than a hundred flows between two hosts are stalled after their
    /// SYN: a possible SYN scan or SYN flood.
    SynScan { pair: HostPair, count: u64 },
}

impl Alert {
    /// The line of text that reports the alert: what was detected, between
    /// whom, and the count where there is one.
    pub open spec fn text(self) -> Seq<char> {
        match self {
            Alert::UdpScan { key } => "Possible UDP scan detected: ("@ + address_text(key.src)
                + ", "@ + address_text(key.dst) + ", "@ + decimal_text(key.message_type as nat)
                + ")"@,
            Alert::FtpAnonymousLogin { flow } => "Ftp anonymous login: ("@ + address_text(flow.src)
                + ", "@ + decimal_text(flow.src_port as nat) + ", "@ + address_text(flow.dst)
                + ", "@ + decimal_text(flow.dst_port as nat) + ")"@,
            Alert::SynScan { pair, count } => "Potentional SYN scan or SYN dos: ("@ + address_text(
                pair.src,
            ) + ", "@ + address_text(pair.dst) + ") packets: "@ + decimal_text(count as nat),
        }
    }

    /// Writes the alert out as one line of text.
    pub fn message(&self) -> (line: String)
        ensures
            line@ == self.text(),
    {
        let mut line = String::new();
        match self {
            Alert::UdpScan { key } => {
                line.append("Possible UDP scan detected: (");
                append_address(&mut line, &key.src);
                line.append(", ");
                append_address(&mut line, &key.dst);
                line.append(", ");
                append_decimal(&mut line, key.message_type as u64);
                line.append(")");
            },
            Alert::FtpAnonymousLogin { flow } => {
                line.append("Ftp anonymous login: (");
                append_address(&mut line, &flow.src);
                line.append(", ");
                append_decimal(&mut line, flow.src_port as u64);
                line.append(", ");
                append_address(&mut line, &flow.dst);
                line.append(", ");
                append_decimal(&mut line, flow.dst_port as u64);
                line.append(")");
            },
            Alert::SynScan { pair, count } => {
                line.append("Potentional SYN scan or SYN dos: (");
                append_address(&mut line, &pair.src);
                line.append(", ");
                append_address(&mut line, &pair.dst);
                line.append(") packets: ");
                append_decimal(&mut line, *count);
            },
        }
        assert(line@ =~= self.text());
        line
    }
}

/// `alerts` holds every member of `raised` once, and nothing else.
pub open spec fn enumerates(alerts: Seq<Alert>, raised: Set<Alert>) -> bool {
    &&& alerts.no_duplicates()
    &&& forall|alert: Alert| alerts.contains(alert) <==> raised.contains(alert)
}

/// What a sequence contains after one more item was pushed.
pub proof fn lemma_push_contains<A>(items: Seq<A>, item: A)
    ensures
        forall|a: A| #[trigger] items.push(item).contains(a) <==> items.contains(a) || a == item,
        items.no_duplicates() && !items.contains(item) ==> items.push(item).no_duplicates(),
{
    let longer = items.push(item);
    assert forall|a: A| #[trigger] longer.contains(a) <==> items.contains(a) || a == item by {
        if items.contains(a) {
            let k = choose|k: int| 0 <= k < items.len() && items[k] == a;
            assert(longer[k] == a);
        }
        if a == item {
            assert(longer[items.len() as int] == a);
        }
        if longer.contains(a) {
            let k = choose|k: int| 0 <= k < longer.len() && longer[k] == a;
            if k < items.len() {
                assert(items[k] == a);
            }
        }
    }
    if items.no_duplicates() && !items.contains(item) {
        assert forall|i: int, j: int| 0 <= i < longer.len() && 0 <= j < longer.len() && i
            != j implies longer[i] != longer[j] by {
            if i < items.len() && j < items.len() {
                assert(items[i] != items[j]);
            } else if i < items.len() {
                assert(items.contains(items[i]));
            } else {
                assert(items.contains(items[j]));
            }
        }
    }
}

/// What the concatenation of two sequences contains.
pub proof fn lemma_concat_contains<A>(front: Seq<A>, back: Seq<A>)
    ensures
        forall|a: A| #[trigger]
            (front + back).contains(a) <==> front.contains(a) || back.contains(a),
        front.no_duplicates() && back.no_duplicates() && (forall|a: A|
            !(front.contains(a) && back.contains(a))) ==> (front + back).no_duplicates(),
{
    let whole = front + back;
    assert forall|a: A| #[trigger] whole.contains(a) <==> front.contains(a) || back.contains(a) by {
        if front.contains(a) {
            let k = choose|k: int| 0 <= k < front.len() && front[k] == a;
            assert(whole[k] == a);
        }
        if back.contains(a) {
            let k = choose|k: int| 0 <= k < back.len() && back[k] == a;
            assert(whole[front.len() + k] == a);
        }
        if whole.contains(a) {
            let k = choose|k: int| 0 <= k < whole.len() && whole[k] == a;
            if k < front.len() {
                assert(front[k] == a);
            } else {
                assert(back[k - front.len()] == a);
            }
        }
    }
    if front.no_duplicates() && back.no_duplicates() && (forall|a: A|
        !(front.contains(a) && back.contains(a))) {
        assert forall|i: int, j: int| 0 <= i < whole.len() && 0 <= j < whole.len() && i
            != j implies whole[i] != whole[j] by {
            if i < front.len() && j < front.len() {
                assert(front[i] != front[j]);
            } else if i >= front.len() && j >= front.len() {
                assert(back[i - front.len()] != back[j - front.len()]);
            } else if i < front.len() {
                assert(front.contains(front[i]));
                assert(back.contains(back[j - front.len()]));
            } else {
                assert(front.contains(front[j]));
                assert(back.contains(back[i - front.len()]));
            }
        }
    }
}

} // verus!
