//! Extraction-and-rendering pipeline for a router daemon's status page.
//!
//! The library scans loosely structured HTML for a fixed set of labelled
//! fragments, collects whatever parsed into a sparse
//! [`Snapshot`](extract::Snapshot), and serializes the snapshot into a
//! line-oriented metrics-exposition document. Every extractor degrades
//! independently: a fragment that is missing or malformed leaves its field
//! absent and never disturbs the others. The pipeline always succeeds: any
//! document yields a well-formed output document, at minimum the version
//! block.

use vstd::prelude::*;

pub mod extract;
pub mod numeric;
pub mod render;
pub mod scan;

verus! {

use crate::extract::SnapView;
use crate::extract::direction_spec;
use crate::extract::extract_snapshot;
use crate::extract::lrt_capture;
use crate::extract::rate_part;
use crate::extract::snapshot_spec;
use crate::numeric::lemma_norm_rate_le;
use crate::numeric::num_frac_len;
use crate::numeric::num_val;
use crate::numeric::p1024;
use crate::numeric::rate_match_pred;
use crate::numeric::rate_parse_spec;
use crate::numeric::rate_value_at;
use crate::render::addr_block;
use crate::render::caps_block;
use crate::render::rate_group_block;
use crate::render::rates_wf;
use crate::render::render_snapshot;
use crate::render::render_spec;
use crate::render::status_block;
use crate::render::svc_block;
use crate::render::u64_block;
use crate::render::version_block;
use crate::scan::first_where;
use crate::scan::lemma_first_where;

/// The whole pipeline as one mathematical function: the document a scrape
/// of `doc` renders, stamped with `ver`.
pub open spec fn metrics_page_spec(doc: Seq<char>, ver: Seq<char>) -> Seq<char> {
    render_spec(snapshot_spec(doc), ver)
}

/// Every rate the rate parser yields carries at most 19 fractional digits.
pub proof fn lemma_rate_parse_scale(s: Seq<char>)
    ensures
        rate_parse_spec(s) matches Some(rt) ==> rt.scale <= 19,
{
    if rate_parse_spec(s) is Some {
        lemma_first_where(s, rate_match_pred(), 0);
        match first_where(s, rate_match_pred(), 0) {
            Some(i) => {
                match rate_value_at(s, i) {
                    Some(rt) => {
                        let f = num_frac_len(s, i) as nat;
                        lemma_norm_rate_le(
                            num_val(s, i) * p1024(
                                crate::numeric::rate_unit_exp(
                                    s,
                                    crate::numeric::space_run_end(s, crate::numeric::num_end(s, i)),
                                )->Some_0,
                            ),
                            f,
                        );
                    },
                    None => {},
                }
            },
            None => {},
        }
    }
}

pub proof fn lemma_direction_rate_scale(lab: Seq<char>, s: Seq<char>)
    ensures
        direction_spec(lab, s).1 matches Some(r) ==> r.scale <= 19,
{
    match lrt_capture(lab, crate::scan::CharClass::NonLt, "<br>"@, s) {
        Some(cp) => {
            let c = s.subrange(cp.0, cp.1);
            match rate_part(c) {
                Some(rp) => {
                    lemma_rate_parse_scale(rp);
                },
                None => {},
            }
        },
        None => {},
    }
}

/// Every rate an extracted snapshot holds fits the renderer.
pub proof fn lemma_snapshot_rates_wf(doc: Seq<char>)
    ensures
        rates_wf(snapshot_spec(doc)),
{
    lemma_direction_rate_scale("<b>Received:</b> "@, doc);
    lemma_direction_rate_scale("<b>Sent:</b> "@, doc);
    lemma_direction_rate_scale("<b>Transit:</b> "@, doc);
}

/// Runs every extraction rule on the document and renders the snapshot:
/// the full scrape pipeline. Always succeeds, whatever the document holds.
pub fn render_metrics(html: &str, version: &str) -> (out: String)
    ensures
        out@ == metrics_page_spec(html@, version@),
{
    let snap = extract_snapshot(html);
    proof {
        lemma_snapshot_rates_wf(html@);
    }
    render_snapshot(&snap, version)
}

/// Rendering is deterministic: the output is a function of the document
/// text and the version stamp alone, so byte-identical inputs yield
/// byte-identical output.
pub proof fn lemma_pipeline_deterministic(
    d1: Seq<char>,
    v1: Seq<char>,
    d2: Seq<char>,
    v2: Seq<char>,
)
    requires
        d1 == d2,
        v1 == v2,
    ensures
        metrics_page_spec(d1, v1) == metrics_page_spec(d2, v2),
{
}

/// A snapshot with every field absent renders to exactly the version
/// block: one block, nothing else.
pub proof fn lemma_empty_snapshot_version_only(sv: SnapView, ver: Seq<char>)
    requires
        sv.ipv4_status is None,
        sv.ipv6_status is None,
        sv.tunnel_creation_rate is None,
        sv.received_bytes is None,
        sv.sent_bytes is None,
        sv.transit_bytes is None,
        sv.received_rate is None,
        sv.sent_rate is None,
        sv.transit_rate is None,
        sv.router_capabilities is None,
        sv.external_addresses.len() == 0,
        sv.router_count is None,
        sv.floodfill_count is None,
        sv.leaseset_count is None,
        sv.client_tunnel_count is None,
        sv.transit_tunnel_count is None,
        sv.service_statuses.len() == 0,
    ensures
        render_spec(sv, ver) == version_block(ver),
{
    assert(render_spec(sv, ver) =~= version_block(ver));
}

/// Round-trip shape of the rendered document: every absent field
/// contributes zero characters, the version block closes the document
/// unconditionally, and each present field contributes exactly its own
/// block, concatenated in the renderer's fixed order.
pub proof fn lemma_render_structure(sv: SnapView, ver: Seq<char>)
    ensures
        sv.ipv4_status is None ==> status_block(
            "# HELP i2p_network_status_v4 IPv4 network status as string\n# TYPE i2p_network_status_v4 gauge\ni2p_network_status_v4{status=\""@,
            sv.ipv4_status,
        ) == Seq::<char>::empty(),
        sv.ipv6_status is None ==> status_block(
            "# HELP i2p_network_status_v6 IPv6 network status as string\n# TYPE i2p_network_status_v6 gauge\ni2p_network_status_v6{status=\""@,
            sv.ipv6_status,
        ) == Seq::<char>::empty(),
        forall|p: Seq<char>, v: Option<u64>|
            v is None ==> #[trigger] u64_block(p, v) == Seq::<char>::empty(),
        sv.received_rate is None && sv.sent_rate is None && sv.transit_rate is None
            ==> rate_group_block(sv.received_rate, sv.sent_rate, sv.transit_rate)
            == Seq::<char>::empty(),
        sv.router_capabilities is None ==> caps_block(sv.router_capabilities)
            == Seq::<char>::empty(),
        sv.external_addresses.len() == 0 ==> addr_block(sv.external_addresses)
            == Seq::<char>::empty(),
        sv.service_statuses.len() == 0 ==> svc_block(sv.service_statuses)
            == Seq::<char>::empty(),
        render_spec(sv, ver).len() >= version_block(ver).len(),
        render_spec(sv, ver).subrange(
            render_spec(sv, ver).len() - version_block(ver).len(),
            render_spec(sv, ver).len() as int,
        ) == version_block(ver),
{
    let body = render_spec(sv, ver);
    let vb = version_block(ver);
    assert(body.subrange(body.len() - vb.len(), body.len() as int) =~= vb);
}

} // verus!
