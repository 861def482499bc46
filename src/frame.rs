//! The text frame drawn on every refresh: host identity, memory and swap
//! usage, a column header and one row per ranked process.
use vstd::prelude::*;
use vstd::string::StringExecFns;
use crate::process::{ProcessRecord, SystemIdentity, SystemSnapshot};
use crate::text::{decimal_text, digit_char, int_text, nat_text, pad_right, padded, signed_text};
use crate::units::{humanize, humanized};

verus! {

/// Width of the PID, memory and label columns.
pub const COLUMN_WIDTH: usize = 10;

/// The placeholder shown for an identity field the provider could not tell.
pub open spec fn placeholder() -> Seq<char> {
    seq!['N', '/', 'A']
}

/// The value shown for an optional field.
pub open spec fn shown(value: Option<String>) -> Seq<char> {
    match value {
        Some(v) => v@,
        None => placeholder(),
    }
}

/// The value of an optional field, or the placeholder `"N/A"` when it is missing.
pub fn extract_data(data: Option<String>) -> (r: String)
    ensures
        r@ == shown(data),
{
    match data {
        Some(d) => d,
        None => {
            proof {
                reveal_strlit("N/A");
            }
            String::from_str("N/A")
        },
    }
}

/// One identity line: the label, the value or placeholder, a line break.
pub open spec fn field_line(label: Seq<char>, value: Option<String>) -> Seq<char> {
    label + shown(value) + seq!['\n']
}

/// Appends one identity line to `out`.
pub fn push_field_line(out: &mut String, label: &str, value: &Option<String>)
    ensures
        final(out)@ == old(out)@ + field_line(label@, *value),
{
    let v = match value {
        Some(v) => Some(v.clone()),
        None => None,
    };
    let text = extract_data(v);
    out.append(label);
    out.append(text.as_str());
    out.append("\n");
    proof {
        reveal_strlit("\n");
    }
}

/// The identity block: name, kernel version, OS version and host name.
pub open spec fn identity_text(id: SystemIdentity) -> Seq<char> {
    field_line("System name: \t"@, id.name) + field_line("Kernel version: "@, id.kernel_version)
        + field_line("OS version:   \t"@, id.os_version) + field_line(
        "Hostname:     \t"@,
        id.host_name,
    )
}

/// A usage line: the label, the used amount, a slash, the total.
pub open spec fn usage_line(label: Seq<char>, used: u64, total: u64) -> Seq<char> {
    label + humanized(used as nat) + seq!['/'] + humanized(total as nat) + seq!['\n']
}

/// The column header line.
pub open spec fn header_line() -> Seq<char> {
    padded("PID"@, 10) + seq![' '] + padded("CPU %"@, 13) + seq![' '] + padded("MEM"@, 10)
        + seq![' '] + "PROCESS"@ + seq!['\n']
}

/// The CPU usage with exactly two decimals, or `"NaN"` without a numeric reading.
pub open spec fn cpu_text(cpu_hundredths: Option<u32>) -> Seq<char> {
    match cpu_hundredths {
        Some(c) => nat_text((c / 100) as nat) + seq!['.', digit_char(((c / 10) % 10) as nat), digit_char((c % 10) as nat)],
        None => seq!['N', 'a', 'N'],
    }
}

/// One table row: PID, CPU usage, memory and label, in fixed-width columns.
pub open spec fn row_text(r: ProcessRecord) -> Seq<char> {
    padded(int_text(r.pid as int), 10) + seq![' '] + cpu_text(r.cpu_hundredths) + seq![
        '\t',
        '\t',
        ' ',
    ] + padded(humanized(r.memory_kb as nat), 10) + seq![' '] + padded(r.label@, 10) + seq!['\n']
}

/// The rows of a ranked view, one per record, in order.
pub open spec fn rows_text(v: Seq<ProcessRecord>) -> Seq<char>
    decreases v.len(),
{
    if v.len() == 0 {
        Seq::empty()
    } else {
        rows_text(v.drop_last()) + row_text(v.last())
    }
}

/// The whole frame for a snapshot and the view ranked from it.
pub open spec fn frame_text(s: SystemSnapshot, view: Seq<ProcessRecord>) -> Seq<char> {
    identity_text(s.identity) + seq!['\n'] + usage_line("RAM: \t"@, s.used_memory, s.total_memory)
        + usage_line("Swap: \t"@, s.used_swap, s.total_swap) + seq!['\n'] + header_line()
        + rows_text(view)
}

/// The CPU usage with exactly two decimals, or `"NaN"` without a numeric reading.
pub fn format_cpu(cpu_hundredths: Option<u32>) -> (r: String)
    ensures
        r@ == cpu_text(cpu_hundredths),
{
    match cpu_hundredths {
        Some(c) => {
            let mut s = decimal_text((c / 100) as u64);
            s.append(".");
            let tens = decimal_text(((c / 10) % 10) as u64);
            let ones = decimal_text((c % 10) as u64);
            s.append(tens.as_str());
            s.append(ones.as_str());
            proof {
                reveal_strlit(".");
            }
            s
        },
        None => {
            proof {
                reveal_strlit("NaN");
            }
            String::from_str("NaN")
        },
    }
}

/// Appends the table row of one record to `out`.
pub fn push_row(out: &mut String, r: &ProcessRecord)
    ensures
        final(out)@ == old(out)@ + row_text(*r),
{
    let mut pid = signed_text(r.pid);
    pad_right(&mut pid, COLUMN_WIDTH);
    let cpu = format_cpu(r.cpu_hundredths);
    let mut mem = humanize(r.memory_kb);
    pad_right(&mut mem, COLUMN_WIDTH);
    let mut label = r.label.clone();
    pad_right(&mut label, COLUMN_WIDTH);
    out.append(pid.as_str());
    out.append(" ");
    out.append(cpu.as_str());
    out.append("\t\t ");
    out.append(mem.as_str());
    out.append(" ");
    out.append(label.as_str());
    out.append("\n");
    proof {
        reveal_strlit(" ");
        reveal_strlit("\t\t ");
        reveal_strlit("\n");
    }
    assert(final(out)@ =~= old(out)@ + row_text(*r));
}

/// Appends a usage line (used amount over total) to `out`.
pub fn push_usage_line(out: &mut String, label: &str, used: u64, total: u64)
    ensures
        final(out)@ == old(out)@ + usage_line(label@, used, total),
{
    let u = humanize(used);
    let t = humanize(total);
    out.append(label);
    out.append(u.as_str());
    out.append("/");
    out.append(t.as_str());
    out.append("\n");
    proof {
        reveal_strlit("/");
        reveal_strlit("\n");
    }
    assert(final(out)@ =~= old(out)@ + usage_line(label@, used, total));
}

/// Produces the frame for a snapshot and the view ranked from it. The frame
/// is a function of its two inputs alone: rendering the same pair twice gives
/// the same text.
pub fn render(snapshot: &SystemSnapshot, view: &Vec<ProcessRecord>) -> (r: String)
    ensures
        r@ == frame_text(*snapshot, view@),
{
    let id = &snapshot.identity;
    let mut out = String::new();
    push_field_line(&mut out, "System name: \t", &id.name);
    push_field_line(&mut out, "Kernel version: ", &id.kernel_version);
    push_field_line(&mut out, "OS version:   \t", &id.os_version);
    push_field_line(&mut out, "Hostname:     \t", &id.host_name);
    out.append("\n");
    push_usage_line(&mut out, "RAM: \t", snapshot.used_memory, snapshot.total_memory);
    push_usage_line(&mut out, "Swap: \t", snapshot.used_swap, snapshot.total_swap);
    out.append("\n");
    let mut pid_head = String::from_str("PID");
    pad_right(&mut pid_head, COLUMN_WIDTH);
    let mut cpu_head = String::from_str("CPU %");
    pad_right(&mut cpu_head, 13);
    let mut mem_head = String::from_str("MEM");
    pad_right(&mut mem_head, COLUMN_WIDTH);
    out.append(pid_head.as_str());
    out.append(" ");
    out.append(cpu_head.as_str());
    out.append(" ");
    out.append(mem_head.as_str());
    out.append(" ");
    out.append("PROCESS");
    out.append("\n");
    proof {
        reveal_strlit("\n");
        reveal_strlit(" ");
    }
    let ghost head = out@;
    assert(head =~= identity_text(snapshot.identity) + seq!['\n'] + usage_line(
        "RAM: \t"@,
        snapshot.used_memory,
        snapshot.total_memory,
    ) + usage_line("Swap: \t"@, snapshot.used_swap, snapshot.total_swap) + seq!['\n']
        + header_line());
    let mut i: usize = 0;
    while i < view.len()
        invariant
            i <= view@.len(),
            out@ == head + rows_text(view@.take(i as int)),
        decreases view@.len() - i,
    {
        assert(view@.take(i as int + 1).drop_last() =~= view@.take(i as int));
        push_row(&mut out, &view[i]);
        assert(out@ =~= head + rows_text(view@.take(i as int + 1)));
        i = i + 1;
    }
    assert(view@.take(view@.len() as int) =~= view@);
    out
}

/// The terminal sequence that clears the screen and moves the cursor home.
pub open spec fn clear_sequence() -> Seq<char> {
    seq!['\x1b', '[', '2', 'J', '\x1b', '[', '1', ';', '1', 'H']
}

/// The text that clears the terminal and homes the cursor before a frame.
pub fn reset_cursor() -> (r: &'static str)
    ensures
        r@ == clear_sequence(),
{
    proof {
        reveal_strlit("\x1b[2J\x1b[1;1H");
    }
    "\x1b[2J\x1b[1;1H"
}

} // verus!
