//! The snapshot renderer: serializes a [`Snapshot`](crate::extract::Snapshot)
//! into a metrics-exposition text document.
//!
//! Blocks are appended in a fixed order, one per present field or field
//! group, each a HELP line, a TYPE line and one or more sample lines. Label
//! values are escaped so that no extracted text can break the line or token
//! structure. A version block is always appended last, whatever else is
//! present.

use vstd::prelude::*;
use vstd::string::*;

use crate::extract::SnapView;
use crate::extract::Snapshot;
use crate::numeric::Rate;
use crate::scan::pow10;
use crate::scan::push_char;
use crate::scan::str_eq_str;

verus! {

// ---------------------------------------------------------------------------
// Escaping and number formatting
// ---------------------------------------------------------------------------

/// A label-value character, escaped: backslash, double quote and newline
/// get a backslash escape; anything else stands as itself.
pub open spec fn escape_char(c: char) -> Seq<char> {
    if c == '\\' {
        seq!['\\', '\\']
    } else if c == '"' {
        seq!['\\', '"']
    } else if c == '\n' {
        seq!['\\', 'n']
    } else {
        seq![c]
    }
}

/// A label value, escaped character by character.
pub open spec fn escape_seq(s: Seq<char>) -> Seq<char>
    decreases s.len(),
{
    if s.len() == 0 {
        Seq::empty()
    } else {
        escape_char(s[0]) + escape_seq(s.drop_first())
    }
}

pub proof fn lemma_escape_snoc(s: Seq<char>)
    requires
        s.len() > 0,
    ensures
        escape_seq(s) == escape_seq(s.drop_last()) + escape_char(s.last()),
    decreases s.len(),
{
    if s.len() == 1 {
        assert(s.drop_first() =~= Seq::<char>::empty());
        assert(s.drop_last() =~= Seq::<char>::empty());
        assert(escape_seq(s) =~= escape_seq(s.drop_last()) + escape_char(s.last()));
    } else {
        lemma_escape_snoc(s.drop_first());
        assert(s.drop_first().drop_last() =~= s.drop_last().drop_first());
        assert(s.drop_last()[0] == s[0]);
        assert(escape_seq(s.drop_last()) == escape_char(s[0]) + escape_seq(
            s.drop_last().drop_first(),
        ));
        assert(escape_char(s[0]) + (escape_seq(s.drop_first().drop_last()) + escape_char(s.last()))
            =~= (escape_char(s[0]) + escape_seq(s.drop_first().drop_last())) + escape_char(
            s.last(),
        ));
    }
}

fn push_escaped(out: &mut String, s: &str)
    ensures
        final(out)@ == old(out)@ + escape_seq(s@),
{
    let ghost base = out@;
    let n = s.unicode_len();
    let mut k: usize = 0;
    proof {
        assert(s@.subrange(0, 0) =~= Seq::<char>::empty());
        assert(base + escape_seq(s@.subrange(0, 0)) =~= base);
    }
    while k < n
        invariant
            0 <= k <= n,
            n == s@.len(),
            out@ == base + escape_seq(s@.subrange(0, k as int)),
        decreases n - k,
    {
        let c = s.get_char(k);
        if c == '\\' {
            push_char(out, '\\');
            push_char(out, '\\');
        } else if c == '"' {
            push_char(out, '\\');
            push_char(out, '"');
        } else if c == '\n' {
            push_char(out, '\\');
            push_char(out, 'n');
        } else {
            push_char(out, c);
        }
        proof {
            let pre = s@.subrange(0, k as int);
            let cur = s@.subrange(0, k as int + 1);
            assert(cur.drop_last() =~= pre);
            assert(cur.last() == s@[k as int]);
            lemma_escape_snoc(cur);
            assert(out@ =~= base + (escape_seq(pre) + escape_char(s@[k as int])));
        }
        k += 1;
    }
    proof {
        assert(s@.subrange(0, s@.len() as int) =~= s@);
    }
}

pub open spec fn digit_char(n: nat) -> char {
    if n == 0 {
        '0'
    } else if n == 1 {
        '1'
    } else if n == 2 {
        '2'
    } else if n == 3 {
        '3'
    } else if n == 4 {
        '4'
    } else if n == 5 {
        '5'
    } else if n == 6 {
        '6'
    } else if n == 7 {
        '7'
    } else if n == 8 {
        '8'
    } else {
        '9'
    }
}

fn digit_char_exec(n: u128) -> (c: char)
    requires
        n <= 9,
    ensures
        c == digit_char(n as nat),
{
    if n == 0 {
        '0'
    } else if n == 1 {
        '1'
    } else if n == 2 {
        '2'
    } else if n == 3 {
        '3'
    } else if n == 4 {
        '4'
    } else if n == 5 {
        '5'
    } else if n == 6 {
        '6'
    } else if n == 7 {
        '7'
    } else if n == 8 {
        '8'
    } else {
        '9'
    }
}

/// Decimal digits of `n`, most significant first.
pub open spec fn dec_str(n: nat) -> Seq<char>
    decreases n,
{
    if n < 10 {
        seq![digit_char(n)]
    } else {
        dec_str(n / 10) + seq![digit_char(n % 10)]
    }
}

fn push_dec(out: &mut String, n: u128)
    ensures
        final(out)@ == old(out)@ + dec_str(n as nat),
    decreases n,
{
    if n < 10 {
        push_char(out, digit_char_exec(n));
        proof {
            assert(old(out)@.push(digit_char(n as nat)) =~= old(out)@ + seq![
                digit_char(n as nat),
            ]);
        }
    } else {
        let ghost base = old(out)@;
        push_dec(out, n / 10);
        push_char(out, digit_char_exec(n % 10));
        proof {
            assert((base + dec_str((n / 10) as nat)).push(digit_char((n % 10) as nat)) =~= base + (
            dec_str((n / 10) as nat) + seq![digit_char((n % 10) as nat)]));
        }
    }
}

/// The lowest `k` decimal digits of `m`, most significant first, zero-padded.
pub open spec fn frac_str(m: nat, k: nat) -> Seq<char>
    decreases k,
{
    if k == 0 {
        Seq::empty()
    } else {
        frac_str(m / 10, (k - 1) as nat) + seq![digit_char(m % 10)]
    }
}

fn push_frac(out: &mut String, m: u128, k: u32)
    ensures
        final(out)@ == old(out)@ + frac_str(m as nat, k as nat),
    decreases k,
{
    if k == 0 {
        proof {
            assert(old(out)@ + frac_str(m as nat, 0) =~= old(out)@);
        }
    } else {
        let ghost base = old(out)@;
        push_frac(out, m / 10, k - 1);
        push_char(out, digit_char_exec(m % 10));
        proof {
            assert((base + frac_str((m / 10) as nat, (k - 1) as nat)).push(
                digit_char((m % 10) as nat),
            ) =~= base + (frac_str((m / 10) as nat, (k - 1) as nat) + seq![
                digit_char((m % 10) as nat),
            ]));
        }
    }
}

/// Exact decimal text of a rate: the integer part, and for a non-zero scale
/// a dot and exactly `scale` fractional digits.
pub open spec fn rate_str(r: Rate) -> Seq<char> {
    if r.scale == 0 {
        dec_str(r.mantissa as nat)
    } else {
        dec_str((r.mantissa as nat) / pow10(r.scale as nat)) + seq!['.'] + frac_str(
            r.mantissa as nat,
            r.scale as nat,
        )
    }
}

fn push_rate(out: &mut String, r: &Rate)
    requires
        r.scale <= 19,
    ensures
        final(out)@ == old(out)@ + rate_str(*r),
{
    if r.scale == 0 {
        push_dec(out, r.mantissa);
    } else {
        let ghost base = old(out)@;
        let pf = crate::numeric::pow10_u128(r.scale as usize);
        proof {
            crate::numeric::lemma_pow10_pos(r.scale as nat);
        }
        push_dec(out, r.mantissa / pf);
        push_char(out, '.');
        push_frac(out, r.mantissa, r.scale);
        proof {
            let a = dec_str((r.mantissa as nat) / pow10(r.scale as nat));
            let b = frac_str(r.mantissa as nat, r.scale as nat);
            assert(((base + a).push('.')) + b =~= base + (a + seq!['.'] + b));
        }
    }
}

// ---------------------------------------------------------------------------
// Blocks, one per field or field group
// ---------------------------------------------------------------------------

/// A status block: the raw text as an escaped label, and a gauge of 1
/// exactly when the text is the literal `OK`.
pub open spec fn status_block(prefix: Seq<char>, st: Option<Seq<char>>) -> Seq<char> {
    match st {
        Some(t) => prefix + escape_seq(t) + "\"} "@ + (if t == "OK"@ {
            "1"@
        } else {
            "0"@
        }) + "\n"@,
        None => Seq::empty(),
    }
}

/// A single-sample numeric block.
pub open spec fn u64_block(prefix: Seq<char>, v: Option<u64>) -> Seq<char> {
    match v {
        Some(n) => prefix + dec_str(n as nat) + "\n"@,
        None => Seq::empty(),
    }
}

/// The capability block: the code as an escaped label on a gauge of 1.
pub open spec fn caps_block(c: Option<Seq<char>>) -> Seq<char> {
    match c {
        Some(t) => prefix_caps() + escape_seq(t) + "\"} 1\n"@,
        None => Seq::empty(),
    }
}

pub open spec fn prefix_caps() -> Seq<char> {
    "# HELP i2p_router_capabilities Router capabilities\n# TYPE i2p_router_capabilities gauge\ni2p_router_capabilities{capabilities=\""@
}

/// One sample line per rate that is present.
pub open spec fn rate_line(prefix: Seq<char>, o: Option<Rate>) -> Seq<char> {
    match o {
        Some(r) => prefix + rate_str(r) + "\n"@,
        None => Seq::empty(),
    }
}

/// The rate group: one HELP/TYPE head when any direction has a rate, then
/// one line per present rate.
pub open spec fn rate_group_block(
    rr: Option<Rate>,
    sr: Option<Rate>,
    tr: Option<Rate>,
) -> Seq<char> {
    if rr is None && sr is None && tr is None {
        Seq::empty()
    } else {
        "# HELP i2p_data_rate_bytes_per_second Data transfer rate in bytes/second\n# TYPE i2p_data_rate_bytes_per_second gauge\n"@
            + rate_line("i2p_data_rate_bytes_per_second{direction=\"received\"} "@, rr)
            + rate_line("i2p_data_rate_bytes_per_second{direction=\"sent\"} "@, sr) + rate_line(
            "i2p_data_rate_bytes_per_second{direction=\"transit\"} "@,
            tr,
        )
    }
}

/// Sample lines of the address block, one per row, in row order.
pub open spec fn addr_lines(rows: Seq<(Seq<char>, Seq<char>)>, i: int) -> Seq<char>
    decreases rows.len() - i,
{
    if i < 0 || i >= rows.len() {
        Seq::empty()
    } else {
        "i2p_external_address{protocol=\""@ + escape_seq(rows[i].0) + "\", address=\""@
            + escape_seq(rows[i].1) + "\"} 1\n"@ + addr_lines(rows, i + 1)
    }
}

/// The external-address block: absent rows yield no lines at all.
pub open spec fn addr_block(rows: Seq<(Seq<char>, Seq<char>)>) -> Seq<char> {
    if rows.len() == 0 {
        Seq::empty()
    } else {
        "# HELP i2p_external_address External addresses the router is reachable at\n# TYPE i2p_external_address gauge\n"@
            + addr_lines(rows, 0)
    }
}

/// Sample lines of the service block, one per mapping entry, in order.
pub open spec fn svc_lines(rows: Seq<(Seq<char>, bool)>, i: int) -> Seq<char>
    decreases rows.len() - i,
{
    if i < 0 || i >= rows.len() {
        Seq::empty()
    } else {
        "i2p_service_status{service=\""@ + escape_seq(rows[i].0) + "\"} "@ + (if rows[i].1 {
            "1"@
        } else {
            "0"@
        }) + "\n"@ + svc_lines(rows, i + 1)
    }
}

/// The service-status block.
pub open spec fn svc_block(rows: Seq<(Seq<char>, bool)>) -> Seq<char> {
    if rows.len() == 0 {
        Seq::empty()
    } else {
        "# HELP i2p_service_status Status of i2pd services (1=enabled, 0=disabled)\n# TYPE i2p_service_status gauge\n"@
            + svc_lines(rows, 0)
    }
}

/// The trailing self-identification block: always present.
pub open spec fn version_block(ver: Seq<char>) -> Seq<char> {
    "# HELP i2pd_webconsole_exporter_version_info I2P webconsole exporter version info\n# TYPE i2pd_webconsole_exporter_version_info gauge\ni2pd_webconsole_exporter_version_info{version=\""@
        + escape_seq(ver) + "\"} 1\n"@
}

/// The whole document: one block per present field, in a fixed order, the
/// version block last.
pub open spec fn render_spec(sv: SnapView, ver: Seq<char>) -> Seq<char> {
    status_block(
        "# HELP i2p_network_status_v4 IPv4 network status as string\n# TYPE i2p_network_status_v4 gauge\ni2p_network_status_v4{status=\""@,
        sv.ipv4_status,
    ) + status_block(
        "# HELP i2p_network_status_v6 IPv6 network status as string\n# TYPE i2p_network_status_v6 gauge\ni2p_network_status_v6{status=\""@,
        sv.ipv6_status,
    ) + u64_block(
        "# HELP i2p_tunnel_creation_success_rate Percentage of successful tunnel creations\n# TYPE i2p_tunnel_creation_success_rate gauge\ni2p_tunnel_creation_success_rate "@,
        sv.tunnel_creation_rate,
    ) + u64_block(
        "# HELP i2p_data_received_bytes Total data received in bytes\n# TYPE i2p_data_received_bytes counter\ni2p_data_received_bytes "@,
        sv.received_bytes,
    ) + u64_block(
        "# HELP i2p_data_sent_bytes Total data sent in bytes\n# TYPE i2p_data_sent_bytes counter\ni2p_data_sent_bytes "@,
        sv.sent_bytes,
    ) + u64_block(
        "# HELP i2p_data_transit_bytes Total transit data in bytes\n# TYPE i2p_data_transit_bytes counter\ni2p_data_transit_bytes "@,
        sv.transit_bytes,
    ) + rate_group_block(sv.received_rate, sv.sent_rate, sv.transit_rate) + caps_block(
        sv.router_capabilities,
    ) + addr_block(sv.external_addresses) + u64_block(
        "# HELP i2p_network_routers Count of routers in the network\n# TYPE i2p_network_routers gauge\ni2p_network_routers "@,
        sv.router_count,
    ) + u64_block(
        "# HELP i2p_network_floodfills Count of floodfill routers in the network\n# TYPE i2p_network_floodfills gauge\ni2p_network_floodfills "@,
        sv.floodfill_count,
    ) + u64_block(
        "# HELP i2p_network_leasesets Count of leasesets in the network\n# TYPE i2p_network_leasesets gauge\ni2p_network_leasesets "@,
        sv.leaseset_count,
    ) + u64_block(
        "# HELP i2p_client_tunnels Count of client tunnels\n# TYPE i2p_client_tunnels gauge\ni2p_client_tunnels "@,
        sv.client_tunnel_count,
    ) + u64_block(
        "# HELP i2p_transit_tunnels Count of transit tunnels\n# TYPE i2p_transit_tunnels gauge\ni2p_transit_tunnels "@,
        sv.transit_tunnel_count,
    ) + svc_block(sv.service_statuses) + version_block(ver)
}

/// Every rate a snapshot holds fits the renderer's exact decimal printer.
pub open spec fn rates_wf(sv: SnapView) -> bool {
    &&& (sv.received_rate matches Some(r) ==> r.scale <= 19)
    &&& (sv.sent_rate matches Some(r) ==> r.scale <= 19)
    &&& (sv.transit_rate matches Some(r) ==> r.scale <= 19)
}

// ---------------------------------------------------------------------------
// Executable writers
// ---------------------------------------------------------------------------

fn push_status_block(out: &mut String, prefix: &str, st: &Option<String>)
    ensures
        final(out)@ == old(out)@ + status_block(prefix@, st.deep_view()),
{
    let ghost base = out@;
    match st {
        Some(t) => {
            out.append(prefix);
            push_escaped(out, t.as_str());
            out.append("\"} ");
            if str_eq_str(t.as_str(), "OK") {
                out.append("1");
            } else {
                out.append("0");
            }
            out.append("\n");
            proof {
                assert(out@ =~= base + status_block(prefix@, st.deep_view()));
            }
        },
        None => {
            proof {
                assert(base + status_block(prefix@, st.deep_view()) =~= base);
            }
        },
    }
}

fn push_u64_block(out: &mut String, prefix: &str, v: &Option<u64>)
    ensures
        final(out)@ == old(out)@ + u64_block(prefix@, *v),
{
    let ghost base = out@;
    match v {
        Some(n) => {
            out.append(prefix);
            push_dec(out, *n as u128);
            out.append("\n");
            proof {
                assert(out@ =~= base + u64_block(prefix@, *v));
            }
        },
        None => {
            proof {
                assert(base + u64_block(prefix@, *v) =~= base);
            }
        },
    }
}

fn push_caps_block(out: &mut String, c: &Option<String>)
    ensures
        final(out)@ == old(out)@ + caps_block(c.deep_view()),
{
    let ghost base = out@;
    match c {
        Some(t) => {
            out.append(
                "# HELP i2p_router_capabilities Router capabilities\n# TYPE i2p_router_capabilities gauge\ni2p_router_capabilities{capabilities=\"",
            );
            push_escaped(out, t.as_str());
            out.append("\"} 1\n");
            proof {
                assert(out@ =~= base + caps_block(c.deep_view()));
            }
        },
        None => {
            proof {
                assert(base + caps_block(c.deep_view()) =~= base);
            }
        },
    }
}

fn push_rate_line(out: &mut String, prefix: &str, o: &Option<Rate>)
    requires
        o matches Some(r) ==> r.scale <= 19,
    ensures
        final(out)@ == old(out)@ + rate_line(prefix@, *o),
{
    let ghost base = out@;
    match o {
        Some(r) => {
            out.append(prefix);
            push_rate(out, r);
            out.append("\n");
            proof {
                assert(out@ =~= base + rate_line(prefix@, *o));
            }
        },
        None => {
            proof {
                assert(base + rate_line(prefix@, *o) =~= base);
            }
        },
    }
}

fn push_rate_group(out: &mut String, rr: &Option<Rate>, sr: &Option<Rate>, tr: &Option<Rate>)
    requires
        rr matches Some(r) ==> r.scale <= 19,
        sr matches Some(r) ==> r.scale <= 19,
        tr matches Some(r) ==> r.scale <= 19,
    ensures
        final(out)@ == old(out)@ + rate_group_block(*rr, *sr, *tr),
{
    let ghost base = out@;
    if rr.is_some() || sr.is_some() || tr.is_some() {
        out.append(
            "# HELP i2p_data_rate_bytes_per_second Data transfer rate in bytes/second\n# TYPE i2p_data_rate_bytes_per_second gauge\n",
        );
        push_rate_line(out, "i2p_data_rate_bytes_per_second{direction=\"received\"} ", rr);
        push_rate_line(out, "i2p_data_rate_bytes_per_second{direction=\"sent\"} ", sr);
        push_rate_line(out, "i2p_data_rate_bytes_per_second{direction=\"transit\"} ", tr);
        proof {
            assert(out@ =~= base + rate_group_block(*rr, *sr, *tr));
        }
    } else {
        proof {
            assert(base + rate_group_block(*rr, *sr, *tr) =~= base);
        }
    }
}

#[verifier::loop_isolation(false)]
fn push_addr_block(out: &mut String, rows: &Vec<(String, String)>)
    ensures
        final(out)@ == old(out)@ + addr_block(rows.deep_view()),
{
    let ghost base = out@;
    let ghost dv = rows.deep_view();
    if rows.len() == 0 {
        proof {
            assert(base + addr_block(dv) =~= base);
        }
        return ;
    }
    out.append(
        "# HELP i2p_external_address External addresses the router is reachable at\n# TYPE i2p_external_address gauge\n",
    );
    let ghost head = out@;
    let mut i: usize = 0;
    while i < rows.len()
        invariant
            0 <= i <= rows@.len(),
            out@ + addr_lines(dv, i as int) == head + addr_lines(dv, 0),
        decreases rows@.len() - i,
    {
        let ghost pre = out@;
        out.append("i2p_external_address{protocol=\"");
        push_escaped(out, rows[i].0.as_str());
        out.append("\", address=\"");
        push_escaped(out, rows[i].1.as_str());
        out.append("\"} 1\n");
        proof {
            let line = "i2p_external_address{protocol=\""@ + escape_seq(dv[i as int].0)
                + "\", address=\""@ + escape_seq(dv[i as int].1) + "\"} 1\n"@;
            assert(out@ =~= pre + line);
            assert(addr_lines(dv, i as int) == line + addr_lines(dv, i as int + 1));
            assert((pre + line) + addr_lines(dv, i as int + 1) =~= pre + (line + addr_lines(
                dv,
                i as int + 1,
            )));
        }
        i += 1;
    }
    proof {
        assert(addr_lines(dv, dv.len() as int) =~= Seq::<char>::empty());
        assert(out@ + Seq::<char>::empty() =~= out@);
        assert(out@ =~= base + addr_block(dv));
    }
}

#[verifier::loop_isolation(false)]
fn push_svc_block(out: &mut String, rows: &Vec<(String, bool)>)
    ensures
        final(out)@ == old(out)@ + svc_block(rows.deep_view()),
{
    let ghost base = out@;
    let ghost dv = rows.deep_view();
    if rows.len() == 0 {
        proof {
            assert(base + svc_block(dv) =~= base);
        }
        return ;
    }
    out.append(
        "# HELP i2p_service_status Status of i2pd services (1=enabled, 0=disabled)\n# TYPE i2p_service_status gauge\n",
    );
    let ghost head = out@;
    let mut i: usize = 0;
    while i < rows.len()
        invariant
            0 <= i <= rows@.len(),
            out@ + svc_lines(dv, i as int) == head + svc_lines(dv, 0),
        decreases rows@.len() - i,
    {
        let ghost pre = out@;
        out.append("i2p_service_status{service=\"");
        push_escaped(out, rows[i].0.as_str());
        out.append("\"} ");
        if rows[i].1 {
            out.append("1");
        } else {
            out.append("0");
        }
        out.append("\n");
        proof {
            let line = "i2p_service_status{service=\""@ + escape_seq(dv[i as int].0) + "\"} "@ + (
            if dv[i as int].1 {
                "1"@
            } else {
                "0"@
            }) + "\n"@;
            assert(out@ =~= pre + line);
            assert(svc_lines(dv, i as int) == line + svc_lines(dv, i as int + 1));
            assert((pre + line) + svc_lines(dv, i as int + 1) =~= pre + (line + svc_lines(
                dv,
                i as int + 1,
            )));
        }
        i += 1;
    }
    proof {
        assert(svc_lines(dv, dv.len() as int) =~= Seq::<char>::empty());
        assert(out@ + Seq::<char>::empty() =~= out@);
        assert(out@ =~= base + svc_block(dv));
    }
}

fn push_version_block(out: &mut String, ver: &str)
    ensures
        final(out)@ == old(out)@ + version_block(ver@),
{
    let ghost base = out@;
    out.append(
        "# HELP i2pd_webconsole_exporter_version_info I2P webconsole exporter version info\n# TYPE i2pd_webconsole_exporter_version_info gauge\ni2pd_webconsole_exporter_version_info{version=\"",
    );
    push_escaped(out, ver);
    out.append("\"} 1\n");
    proof {
        assert(out@ =~= base + version_block(ver@));
    }
}

/// Serializes a snapshot: one block per present field, in a fixed order,
/// the version block always last.
pub fn render_snapshot(snap: &Snapshot, version: &str) -> (out: String)
    requires
        rates_wf(snap@),
    ensures
        out@ == render_spec(snap@, version@),
{
    let mut out = String::new();
    push_status_block(
        &mut out,
        "# HELP i2p_network_status_v4 IPv4 network status as string\n# TYPE i2p_network_status_v4 gauge\ni2p_network_status_v4{status=\"",
        &snap.ipv4_status,
    );
    push_status_block(
        &mut out,
        "# HELP i2p_network_status_v6 IPv6 network status as string\n# TYPE i2p_network_status_v6 gauge\ni2p_network_status_v6{status=\"",
        &snap.ipv6_status,
    );
    push_u64_block(
        &mut out,
        "# HELP i2p_tunnel_creation_success_rate Percentage of successful tunnel creations\n# TYPE i2p_tunnel_creation_success_rate gauge\ni2p_tunnel_creation_success_rate ",
        &snap.tunnel_creation_rate,
    );
    push_u64_block(
        &mut out,
        "# HELP i2p_data_received_bytes Total data received in bytes\n# TYPE i2p_data_received_bytes counter\ni2p_data_received_bytes ",
        &snap.data_metrics.received_bytes,
    );
    push_u64_block(
        &mut out,
        "# HELP i2p_data_sent_bytes Total data sent in bytes\n# TYPE i2p_data_sent_bytes counter\ni2p_data_sent_bytes ",
        &snap.data_metrics.sent_bytes,
    );
    push_u64_block(
        &mut out,
        "# HELP i2p_data_transit_bytes Total transit data in bytes\n# TYPE i2p_data_transit_bytes counter\ni2p_data_transit_bytes ",
        &snap.data_metrics.transit_bytes,
    );
    push_rate_group(
        &mut out,
        &snap.data_metrics.received_rate,
        &snap.data_metrics.sent_rate,
        &snap.data_metrics.transit_rate,
    );
    push_caps_block(&mut out, &snap.router_capabilities);
    push_addr_block(&mut out, &snap.external_addresses);
    push_u64_block(
        &mut out,
        "# HELP i2p_network_routers Count of routers in the network\n# TYPE i2p_network_routers gauge\ni2p_network_routers ",
        &snap.router_count,
    );
    push_u64_block(
        &mut out,
        "# HELP i2p_network_floodfills Count of floodfill routers in the network\n# TYPE i2p_network_floodfills gauge\ni2p_network_floodfills ",
        &snap.floodfill_count,
    );
    push_u64_block(
        &mut out,
        "# HELP i2p_network_leasesets Count of leasesets in the network\n# TYPE i2p_network_leasesets gauge\ni2p_network_leasesets ",
        &snap.leaseset_count,
    );
    push_u64_block(
        &mut out,
        "# HELP i2p_client_tunnels Count of client tunnels\n# TYPE i2p_client_tunnels gauge\ni2p_client_tunnels ",
        &snap.client_tunnel_count,
    );
    push_u64_block(
        &mut out,
        "# HELP i2p_transit_tunnels Count of transit tunnels\n# TYPE i2p_transit_tunnels gauge\ni2p_transit_tunnels ",
        &snap.transit_tunnel_count,
    );
    push_svc_block(&mut out, &snap.service_statuses);
    push_version_block(&mut out, version);
    proof {
        assert(out@ =~= render_spec(snap@, version@));
    }
    out
}

} // verus!
