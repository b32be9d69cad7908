use i2pd_exporter::extract::{
    extract_snapshot, parse_data_metrics, parse_external_addresses, parse_network_counts,
    parse_network_status, parse_router_capabilities, parse_service_statuses,
    parse_tunnel_counts, parse_tunnel_creation_rate,
};
use i2pd_exporter::numeric::{parse_data_rate, parse_data_size, Rate};
use i2pd_exporter::render_metrics;

fn whole(m: u128) -> Rate {
    Rate {
        mantissa: m,
        scale: 0,
    }
}

#[test]
fn size_parse_unit_ladder() {
    assert_eq!(parse_data_size("1 B"), Some(1));
    assert_eq!(parse_data_size("1 KiB"), Some(1024));
    assert_eq!(parse_data_size("1 MiB"), Some(1024 * 1024));
    assert_eq!(parse_data_size("1 GiB"), Some(1024 * 1024 * 1024));
    assert_eq!(parse_data_size("1 TiB"), Some(1024u64.pow(4)));
}

#[test]
fn size_parse_fractional_truncates() {
    assert_eq!(parse_data_size("1.5 MiB"), Some(1572864));
    assert_eq!(parse_data_size("0.1 KiB"), Some(102));
}

#[test]
fn size_parse_rejects_garbage() {
    assert_eq!(parse_data_size("garbage"), None);
    assert_eq!(parse_data_size(""), None);
    assert_eq!(parse_data_size("12 XiB"), None);
}

#[test]
fn size_parse_no_space() {
    assert_eq!(parse_data_size("500MiB"), Some(500 * 1024 * 1024));
}

#[test]
fn rate_parse_exact() {
    assert_eq!(parse_data_rate("100.5 KiB/s"), Some(whole(102912)));
    let as_f64 = 100.5 * 1024.0;
    assert_eq!(as_f64, 102912.0);
}

#[test]
fn rate_parse_keeps_fraction() {
    assert_eq!(
        parse_data_rate("1.5 B/s"),
        Some(Rate {
            mantissa: 15,
            scale: 1
        })
    );
    assert_eq!(parse_data_rate("2.50 KiB/s"), Some(whole(2560)));
    assert_eq!(parse_data_rate("7 B/s"), Some(whole(7)));
}

#[test]
fn rate_parse_rejects_plain_size() {
    assert_eq!(parse_data_rate("100 KiB"), None);
}

#[test]
fn received_pair_extracts_both_halves() {
    let doc = "<b>Received:</b> 2.00 GiB (150.00 KiB/s)<br>";
    let dm = parse_data_metrics(doc);
    assert_eq!(dm.received_bytes, Some(2147483648));
    assert_eq!(dm.received_rate, Some(whole(153600)));
    let as_f64 = 150.00 * 1024.0;
    assert_eq!(as_f64, 153600.0);
}

#[test]
fn malformed_received_leaves_others_alone() {
    let doc = "<b>Received:</b> garbage<br><b>Sent:</b> 1 KiB (512 B/s)<br>\
               <b>Transit:</b> 2 KiB<br>";
    let dm = parse_data_metrics(doc);
    assert_eq!(dm.received_bytes, None);
    assert_eq!(dm.received_rate, None);
    assert_eq!(dm.sent_bytes, Some(1024));
    assert_eq!(dm.sent_rate, Some(whole(512)));
    assert_eq!(dm.transit_bytes, Some(2048));
    assert_eq!(dm.transit_rate, None);
    let out = render_metrics(doc, "0.0.0");
    assert!(!out.contains("i2p_data_received_bytes"));
    assert!(out.contains("i2p_data_sent_bytes 1024\n"));
    assert!(out.contains("i2p_data_transit_bytes 2048\n"));
}

#[test]
fn total_present_rate_malformed() {
    let dm = parse_data_metrics("<b>Received:</b> 1 KiB (fast)<br>");
    assert_eq!(dm.received_bytes, Some(1024));
    assert_eq!(dm.received_rate, None);
}

#[test]
fn network_status_both_directions() {
    let doc = "<b>Network status:</b> OK<br><b>Network status v6:</b> Testing<br>";
    let (v4, v6) = parse_network_status(doc);
    assert_eq!(v4.as_deref(), Some("OK"));
    assert_eq!(v6.as_deref(), Some("Testing"));
    let (none4, none6) = parse_network_status("nothing here");
    assert_eq!(none4, None);
    assert_eq!(none6, None);
}

#[test]
fn status_text_is_trimmed() {
    let (v4, _) = parse_network_status("<b>Network status:</b>  OK <br>");
    assert_eq!(v4.as_deref(), Some("OK"));
}

#[test]
fn tunnel_creation_rate_integer_percent() {
    assert_eq!(
        parse_tunnel_creation_rate("<b>Tunnel creation success rate:</b> 57%"),
        Some(57)
    );
    assert_eq!(parse_tunnel_creation_rate("<b>Tunnel creation success rate:</b> x%"), None);
}

#[test]
fn router_capabilities_char_class() {
    assert_eq!(
        parse_router_capabilities("<b>Router Caps:</b> KR~4<br>").as_deref(),
        Some("KR~4")
    );
    assert_eq!(parse_router_capabilities("<b>Router Caps:</b> <br>"), None);
}

#[test]
fn external_addresses_in_row_order() {
    let doc = "<b>Our external address:</b><table class=\"extaddr\">\
               <tr><td>NTCP2</td><td>192.0.2.1:4567</td></tr>\
               <tr><td>SSU2</td><td>192.0.2.1:4568</td></tr></table>";
    let rows = parse_external_addresses(doc);
    assert_eq!(rows.len(), 2);
    assert_eq!(rows[0], ("NTCP2".to_string(), "192.0.2.1:4567".to_string()));
    assert_eq!(rows[1], ("SSU2".to_string(), "192.0.2.1:4568".to_string()));
}

#[test]
fn external_addresses_missing_section_is_empty() {
    assert!(parse_external_addresses("<table class=\"extaddr\"></table>").is_empty());
    assert!(parse_external_addresses("").is_empty());
}

#[test]
fn network_counts_shared_line() {
    let doc = "<b>Routers:</b> 100 <b>Floodfills:</b> 50 <b>LeaseSets:</b> 5";
    assert_eq!(parse_network_counts(doc), (Some(100), Some(50), Some(5)));
    assert_eq!(parse_network_counts("<b>Routers:</b> 100"), (None, None, None));
}

#[test]
fn network_counts_overflow_is_independent() {
    let doc = "<b>Routers:</b> 99999999999999999999 <b>Floodfills:</b> 50 <b>LeaseSets:</b> 5";
    assert_eq!(parse_network_counts(doc), (None, Some(50), Some(5)));
}

#[test]
fn tunnel_counts_shared_line() {
    let doc = "<b>Client Tunnels:</b> 10 <b>Transit Tunnels:</b> 20";
    assert_eq!(parse_tunnel_counts(doc), (Some(10), Some(20)));
    assert_eq!(parse_tunnel_counts("<b>Client Tunnels:</b> 10"), (None, None));
}

#[test]
fn service_row_normalizes_key() {
    let doc = "<table class=\"services\">\
               <tr><td>SOCKS</td><td class='enabled'>Yes</td></tr></table>";
    let svc = parse_service_statuses(doc);
    assert_eq!(svc, vec![("socks".to_string(), true)]);
    let out = render_metrics(doc, "0.0.0");
    assert!(out.contains("i2p_service_status{service=\"socks\"} 1\n"));
}

#[test]
fn service_duplicate_key_last_wins() {
    let doc = "<table class=\"services\">\
               <tr><td>HTTP Proxy</td><td class='enabled'>Yes</td></tr>\
               <tr><td>SOCKS</td><td class='enabled'>Yes</td></tr>\
               <tr><td>SOCKS</td><td class='disabled'>No</td></tr></table>";
    let svc = parse_service_statuses(doc);
    assert_eq!(
        svc,
        vec![
            ("http_proxy".to_string(), true),
            ("socks".to_string(), false)
        ]
    );
}

#[test]
fn empty_document_renders_version_block_only() {
    let out = render_metrics("", "1.2.3");
    let expected = "# HELP i2pd_webconsole_exporter_version_info I2P webconsole exporter version info\n\
                    # TYPE i2pd_webconsole_exporter_version_info gauge\n\
                    i2pd_webconsole_exporter_version_info{version=\"1.2.3\"} 1\n";
    assert_eq!(out, expected);
}

#[test]
fn rendering_is_deterministic() {
    let doc = "<b>Network status:</b> OK<br><b>Received:</b> 1 KiB (2 KiB/s)<br>\
               <b>Routers:</b> 1 <b>Floodfills:</b> 2 <b>LeaseSets:</b> 3";
    let a = render_metrics(doc, "9.9");
    let b = render_metrics(doc, "9.9");
    assert_eq!(a, b);
}

#[test]
fn status_label_values_are_escaped() {
    let out = render_metrics("<b>Network status:</b> a\"b\\c<br>", "0.0.0");
    assert!(out.contains("i2p_network_status_v4{status=\"a\\\"b\\\\c\"} 0\n"));
}

#[test]
fn ok_status_maps_to_gauge_one() {
    let out = render_metrics("<b>Network status:</b> OK<br>", "0.0.0");
    assert!(out.contains("i2p_network_status_v4{status=\"OK\"} 1\n"));
    let out2 = render_metrics("<b>Network status:</b> Firewalled<br>", "0.0.0");
    assert!(out2.contains("i2p_network_status_v4{status=\"Firewalled\"} 0\n"));
}

#[test]
fn full_document_renders_every_block_once() {
    let doc = "<b>Network status:</b> OK<br><b>Network status v6:</b> Testing<br><b>Tunnel creation success rate:</b> 57%<br><b>Received:</b> 1.00 KiB (512 B/s)<br><b>Sent:</b> 2 KiB (1.00 KiB/s)<br><b>Transit:</b> 512 B<br><b>Router Caps:</b> KR~<br><b>Our external address:</b><table class=\"extaddr\"><tr><td>NTCP2</td><td>192.0.2.7:9111</td></tr></table><b>Routers:</b> 100 <b>Floodfills:</b> 50 <b>LeaseSets:</b> 5 <b>Client Tunnels:</b> 10 <b>Transit Tunnels:</b> 20 <table class=\"services\"><tr><td>HTTP Proxy</td><td class='enabled'>Yes</td></tr><tr><td>SOCKS</td><td class='disabled'>No</td></tr></table>";
    let out = render_metrics(doc, "0.5.0");
    let expected = "# HELP i2p_network_status_v4 IPv4 network status as string\n# TYPE i2p_network_status_v4 gauge\ni2p_network_status_v4{status=\"OK\"} 1\n# HELP i2p_network_status_v6 IPv6 network status as string\n# TYPE i2p_network_status_v6 gauge\ni2p_network_status_v6{status=\"Testing\"} 0\n# HELP i2p_tunnel_creation_success_rate Percentage of successful tunnel creations\n# TYPE i2p_tunnel_creation_success_rate gauge\ni2p_tunnel_creation_success_rate 57\n# HELP i2p_data_received_bytes Total data received in bytes\n# TYPE i2p_data_received_bytes counter\ni2p_data_received_bytes 1024\n# HELP i2p_data_sent_bytes Total data sent in bytes\n# TYPE i2p_data_sent_bytes counter\ni2p_data_sent_bytes 2048\n# HELP i2p_data_transit_bytes Total transit data in bytes\n# TYPE i2p_data_transit_bytes counter\ni2p_data_transit_bytes 512\n# HELP i2p_data_rate_bytes_per_second Data transfer rate in bytes/second\n# TYPE i2p_data_rate_bytes_per_second gauge\ni2p_data_rate_bytes_per_second{direction=\"received\"} 512\ni2p_data_rate_bytes_per_second{direction=\"sent\"} 1024\n# HELP i2p_router_capabilities Router capabilities\n# TYPE i2p_router_capabilities gauge\ni2p_router_capabilities{capabilities=\"KR~\"} 1\n# HELP i2p_external_address External addresses the router is reachable at\n# TYPE i2p_external_address gauge\ni2p_external_address{protocol=\"NTCP2\", address=\"192.0.2.7:9111\"} 1\n# HELP i2p_network_routers Count of routers in the network\n# TYPE i2p_network_routers gauge\ni2p_network_routers 100\n# HELP i2p_network_floodfills Count of floodfill routers in the network\n# TYPE i2p_network_floodfills gauge\ni2p_network_floodfills 50\n# HELP i2p_network_leasesets Count of leasesets in the network\n# TYPE i2p_network_leasesets gauge\ni2p_network_leasesets 5\n# HELP i2p_client_tunnels Count of client tunnels\n# TYPE i2p_client_tunnels gauge\ni2p_client_tunnels 10\n# HELP i2p_transit_tunnels Count of transit tunnels\n# TYPE i2p_transit_tunnels gauge\ni2p_transit_tunnels 20\n# HELP i2p_service_status Status of i2pd services (1=enabled, 0=disabled)\n# TYPE i2p_service_status gauge\ni2p_service_status{service=\"http_proxy\"} 1\ni2p_service_status{service=\"socks\"} 0\n# HELP i2pd_webconsole_exporter_version_info I2P webconsole exporter version info\n# TYPE i2pd_webconsole_exporter_version_info gauge\ni2pd_webconsole_exporter_version_info{version=\"0.5.0\"} 1\n";
    assert_eq!(out, expected);
}

#[test]
fn snapshot_fields_are_independent() {
    let snap = extract_snapshot("<b>Router Caps:</b> L<br>");
    assert_eq!(snap.router_capabilities.as_deref(), Some("L"));
    assert_eq!(snap.ipv4_status, None);
    assert_eq!(snap.tunnel_creation_rate, None);
    assert!(snap.external_addresses.is_empty());
    assert!(snap.service_statuses.is_empty());
}

#[test]
fn fractional_rate_renders_exact_decimal() {
    let doc = "<b>Received:</b> 1 B (1.5 B/s)<br>";
    let out = render_metrics(doc, "0.0.0");
    assert!(out.contains("i2p_data_rate_bytes_per_second{direction=\"received\"} 1.5\n"));
}
