//! Progress reporting for long-running operations.
//!
//! The handler tracks the current step of an operation and renders the
//! progress lines; the caller decides where to print them.

use vstd::prelude::*;
use crate::Result;
use crate::text::dec_str;
use crate::text::digit_char;

verus! {

/// Render `n` in decimal.
pub fn u64_to_string(n: u64) -> (r: String)
    ensures
        r@ == dec_str(n as nat),
    decreases n,
{
    let d: char = match n % 10 {
        0 => '0',
        1 => '1',
        2 => '2',
        3 => '3',
        4 => '4',
        5 => '5',
        6 => '6',
        7 => '7',
        8 => '8',
        _ => '9',
    };
    proof {
        assert(d == digit_char((n % 10) as nat));
    }
    if n < 10 {
        let mut r = String::new();
        r.push(d);
        proof {
            assert(r@ =~= dec_str(n as nat));
        }
        r
    } else {
        let mut r = u64_to_string(n / 10);
        r.push(d);
        proof {
            assert(r@ =~= dec_str(n as nat));
        }
        r
    }
}

/// The whole percentage of `current` out of `total`: zero for an empty
/// operation, never more than one hundred.
pub open spec fn spec_percentage(current: u64, total: u64) -> int {
    if total == 0 {
        0
    } else if current >= total {
        100
    } else {
        (current as int) * 100 / (total as int)
    }
}

/// Mathematical model of [`ProgressHandler`].
pub ghost struct ProgressModel {
    pub operation: Seq<char>,
    pub total: u64,
    pub current: u64,
}

/// The progress line rendered for one state of the handler.
pub open spec fn progress_line(m: ProgressModel) -> Seq<char> {
    m.operation + ": "@ + dec_str(spec_percentage(m.current, m.total) as nat) + "% ("@ + dec_str(
        m.current as nat,
    ) + "/"@ + dec_str(m.total as nat) + ")"@
}

/// Progress handler for a long-running operation.
pub struct ProgressHandler {
    /// Operation description.
    operation: String,
    /// Total number of steps.
    total: u64,
    /// Current step.
    current: u64,
}

impl View for ProgressHandler {
    type V = ProgressModel;

    closed spec fn view(&self) -> ProgressModel {
        ProgressModel { operation: self.operation@, total: self.total, current: self.current }
    }
}

impl ProgressHandler {
    /// Update the progress to `current` and render the progress line.
    pub fn update(&mut self, current: u64) -> (line: String)
        ensures
            final(self)@ == (ProgressModel {
                operation: old(self)@.operation,
                total: old(self)@.total,
                current,
            }),
            line@ == progress_line(final(self)@),
    {
        self.current = current;
        let percentage: u64 = if self.total == 0 {
            0
        } else if self.current >= self.total {
            100
        } else {
            proof {
                assert((self.current as int) * 100 / (self.total as int) < 100 && (self.current
                    as int) * 100 / (self.total as int) >= 0) by (nonlinear_arith)
                    requires
                        0 < self.total,
                        0 <= self.current < self.total,
                ;
            }
            ((self.current as u128 * 100) / (self.total as u128)) as u64
        };
        let mut line = self.operation.clone();
        line.append(": ");
        let pct = u64_to_string(percentage);
        line.append(pct.as_str());
        line.append("% (");
        let cur = u64_to_string(self.current);
        line.append(cur.as_str());
        line.append("/");
        let tot = u64_to_string(self.total);
        line.append(tot.as_str());
        line.append(")");
        proof {
            assert(line@ =~= progress_line(self@));
        }
        line
    }

    /// Advance the progress by one step and render the progress line.
    pub fn increment(&mut self) -> (line: String)
        requires
            old(self)@.current < u64::MAX,
        ensures
            final(self)@ == (ProgressModel {
                operation: old(self)@.operation,
                total: old(self)@.total,
                current: (old(self)@.current + 1) as u64,
            }),
            line@ == progress_line(final(self)@),
    {
        let next = self.current + 1;
        self.update(next)
    }

    /// Set the progress to the total and render the two closing lines:
    /// the full progress line and the completion note, separated by a
    /// newline.
    pub fn complete(&mut self) -> (lines: String)
        ensures
            final(self)@ == (ProgressModel {
                operation: old(self)@.operation,
                total: old(self)@.total,
                current: old(self)@.total,
            }),
            lines@ == progress_line(final(self)@) + "\n"@ + final(self)@.operation
                + " completed."@,
    {
        let total = self.total;
        let mut lines = self.update(total);
        lines.append("\n");
        lines.append(self.operation.as_str());
        lines.append(" completed.");
        proof {
            assert(lines@ =~= progress_line(self@) + "\n"@ + self@.operation + " completed."@);
        }
        lines
    }
}

/// Create a progress handler starting at step zero, together with the
/// opening line announcing the operation.
pub fn create_progress_display(operation: &str, total: u64) -> (r: Result<(ProgressHandler, String)>)
    ensures
        r matches Ok(p) && p.0@ == (ProgressModel { operation: operation@, total, current: 0 })
            && p.1@ == "Starting "@ + operation@ + "..."@,
{
    let handler = ProgressHandler { operation: operation.to_owned(), total, current: 0 };
    let mut line = String::new();
    line.append("Starting ");
    line.append(operation);
    line.append("...");
    proof {
        assert(line@ =~= "Starting "@ + operation@ + "..."@);
    }
    Ok((handler, line))
}

/// Placeholder for an interactive terminal interface; it has no state to
/// set up and always succeeds.
pub fn create_terminal_ui() -> (r: Result<()>)
    ensures
        r is Ok,
{
    Ok(())
}

} // verus!
