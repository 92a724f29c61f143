//! The line that reports one orientation sample.

use vstd::prelude::*;
use vstd::string::StringExecFns;

verus! {

/// The text of a report line, given the text of each angle.
pub open spec fn line_spec(yaw: Seq<char>, pitch: Seq<char>, roll: Seq<char>) -> Seq<char> {
    "yaw="@ + yaw + "; pitch="@ + pitch + "; roll="@ + roll
}

/// Builds the line that reports one sample from the printed form of its
/// three angles: `yaw=<yaw>; pitch=<pitch>; roll=<roll>`.
pub fn report_line(yaw: &str, pitch: &str, roll: &str) -> (line: String)
    ensures
        line@ == line_spec(yaw@, pitch@, roll@),
{
    let mut line = String::new();
    line.append("yaw=");
    line.append(yaw);
    line.append("; pitch=");
    line.append(pitch);
    line.append("; roll=");
    line.append(roll);
    line
}

} // verus!
