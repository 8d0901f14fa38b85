//! Texts shown on the dashboard that are made of integer figures only.
use vstd::prelude::*;
use crate::data::{format_bytes, format_throughput, format_uptime, spec_format_bytes,
    spec_format_throughput, spec_format_uptime};
use crate::decimal::{dec, push_decimal};

verus! {

/// "`used` / `total`", both as byte counts.
pub fn usage_label(used: u64, total: u64) -> (r: String)
    ensures
        r@ == spec_format_bytes(used as nat) + " / "@ + spec_format_bytes(total as nat),
{
    let mut s = format_bytes(used);
    s.append(" / ");
    let t = format_bytes(total);
    s.append(t.as_str());
    s
}

/// "`cores` cores  |  `mhz` MHz" (CPU page).
pub fn cpu_info_label(cores: usize, mhz: u64) -> (r: String)
    ensures
        r@ == dec(cores as nat) + " cores  |  "@ + dec(mhz as nat) + " MHz"@,
{
    let mut s = String::new();
    push_decimal(&mut s, cores as u64);
    s.append(" cores  |  ");
    push_decimal(&mut s, mhz);
    s.append(" MHz");
    s
}

/// Footers of the CPU card: "`cores` cores" and "`mhz` MHz".
pub fn cpu_card_footers(cores: usize, mhz: u64) -> (r: (String, String))
    ensures
        r.0@ == dec(cores as nat) + " cores"@,
        r.1@ == dec(mhz as nat) + " MHz"@,
{
    let mut left = String::new();
    push_decimal(&mut left, cores as u64);
    left.append(" cores");
    let mut right = String::new();
    push_decimal(&mut right, mhz);
    right.append(" MHz");
    (left, right)
}

/// Footers of the memory card: "`total` total" and "Swap: `swap_used`".
pub fn memory_card_footers(total: u64, swap_used: u64) -> (r: (String, String))
    ensures
        r.0@ == spec_format_bytes(total as nat) + " total"@,
        r.1@ == "Swap: "@ + spec_format_bytes(swap_used as nat),
{
    let mut left = format_bytes(total);
    left.append(" total");
    let mut right = String::new();
    right.append("Swap: ");
    let sw = format_bytes(swap_used);
    right.append(sw.as_str());
    (left, right)
}

/// Combined network rate (download plus upload).
pub fn net_total_rate(rx_rate: u64, tx_rate: u64) -> (t: u64)
    requires
        rx_rate + tx_rate <= u64::MAX,
    ensures
        t == rx_rate + tx_rate,
{
    rx_rate + tx_rate
}

/// Texts of the network card: the combined rate, "RX: `rx`" and
/// "TX: `tx`".
pub fn network_card_texts(rx_rate: u64, tx_rate: u64) -> (r: (String, String, String))
    requires
        rx_rate + tx_rate <= u64::MAX,
    ensures
        r.0@ == spec_format_throughput((rx_rate + tx_rate) as nat),
        r.1@ == "RX: "@ + spec_format_throughput(rx_rate as nat),
        r.2@ == "TX: "@ + spec_format_throughput(tx_rate as nat),
{
    let value = format_throughput(net_total_rate(rx_rate, tx_rate));
    let mut left = String::new();
    left.append("RX: ");
    let rx = format_throughput(rx_rate);
    left.append(rx.as_str());
    let mut right = String::new();
    right.append("TX: ");
    let tx = format_throughput(tx_rate);
    right.append(tx.as_str());
    (value, left, right)
}

/// First system-information line: "OS: `os`  |  CPU: `cpu`  |  RAM: `ram`".
pub fn system_info_line1(os_version: &str, cpu_model: &str, mem_total: u64) -> (r: String)
    ensures
        r@ == "OS: "@ + os_version@ + "  |  CPU: "@ + cpu_model@ + "  |  RAM: "@ + spec_format_bytes(mem_total as nat),
{
    let mut s = String::new();
    s.append("OS: ");
    s.append(os_version);
    s.append("  |  CPU: ");
    s.append(cpu_model);
    s.append("  |  RAM: ");
    let ram = format_bytes(mem_total);
    s.append(ram.as_str());
    s
}

/// Second system-information line: "Uptime: `uptime`  |  Processes: `count`".
pub fn system_info_line2(uptime_seconds: u64, process_count: usize) -> (r: String)
    ensures
        r@ == "Uptime: "@ + spec_format_uptime(uptime_seconds as nat) + "  |  Processes: "@ + dec(process_count as nat),
{
    let mut s = String::new();
    s.append("Uptime: ");
    let up = format_uptime(uptime_seconds);
    s.append(up.as_str());
    s.append("  |  Processes: ");
    push_decimal(&mut s, process_count as u64);
    s
}

} // verus!
