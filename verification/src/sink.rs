use vstd::prelude::*;
use vstd::string::StringExecFns;

use crate::date::{spec_stamp, Date};

verus! {

/// The configuration of one rotating output destination: where its
/// date-stamped files live and how they are named.
#[derive(Clone, Debug)]
pub struct SinkConfig {
    pub folder: String,
    pub prefix: String,
    pub extension: String,
}

/// The name of a sink's target file for a given stamp:
/// `<folder>/<prefix><stamp>.<extension>`, with the folder segment and
/// its slash omitted when the folder is empty.
pub open spec fn spec_file_name(
    folder: Seq<char>,
    prefix: Seq<char>,
    stamp: Seq<char>,
    extension: Seq<char>,
) -> Seq<char> {
    if folder.len() == 0 {
        prefix + stamp + seq!['.'] + extension
    } else {
        folder + seq!['/'] + prefix + stamp + seq!['.'] + extension
    }
}

/// The payload of one write: the raw message followed by a newline, so
/// that every write hands the file one complete, terminated line.
pub open spec fn spec_line_record(msg: Seq<char>) -> Seq<char> {
    msg + seq!['\n']
}

impl SinkConfig {
    /// The file this sink targets on the given date.
    pub fn file_name(&self, d: &Date) -> (r: String)
        requires
            d.wf(),
        ensures
            r@ == spec_file_name(self.folder@, self.prefix@, spec_stamp(*d), self.extension@),
    {
        proof {
            reveal_strlit("/");
            reveal_strlit(".");
        }
        let day_stamp = crate::date::stamp(d);
        let mut s = String::new();
        if !self.folder.as_str().is_empty() {
            s.append(self.folder.as_str());
            s.append("/");
        }
        s.append(self.prefix.as_str());
        s.append(day_stamp.as_str());
        s.append(".");
        s.append(self.extension.as_str());
        proof {
            assert(s@ =~= spec_file_name(
                self.folder@,
                self.prefix@,
                spec_stamp(*d),
                self.extension@,
            ));
        }
        s
    }
}

/// Turns a raw message into the exact bytes-as-text of one write:
/// the message and a terminating newline, nothing else.
pub fn line_record(msg: &str) -> (r: String)
    ensures
        r@ == spec_line_record(msg@),
{
    proof {
        reveal_strlit("\n");
    }
    let mut s = String::new();
    s.append(msg);
    s.append("\n");
    proof {
        assert(s@ =~= spec_line_record(msg@));
    }
    s
}

} // verus!
