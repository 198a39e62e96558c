//! The log of a plugin.

use vstd::prelude::*;
use crate::text::{extend_str, string_of};

verus! {

/// The console of a plugin: what the plugin logs goes to the files under
/// `path`.
#[derive(Clone, Debug)]
pub struct JsConsole {
    pub path: String,
}

/// The file of a level: `LOGS/<level>.log` under the plugin's directory.
pub open spec fn log_file(path: Seq<char>, level: Seq<char>) -> Seq<char> {
    path + "/LOGS/"@ + level + ".log"@
}

/// A line of the log: the time, a blank, the message and a line feed.
pub open spec fn log_text(time: Seq<char>, msg: Seq<char>) -> Seq<char> {
    time + " "@ + msg + "\n"@
}

/// The parts of a message joined by `, `.
pub open spec fn joined(spans: Seq<Seq<char>>) -> Seq<char>
    decreases spans.len(),
{
    if spans.len() == 0 {
        Seq::<char>::empty()
    } else if spans.len() == 1 {
        spans[0]
    } else {
        joined(spans.drop_last()) + ", "@ + spans.last()
    }
}

impl JsConsole {
    pub fn new(path: String) -> (r: Self)
        ensures
            r.path == path,
    {
        JsConsole { path }
    }

    /// The file to which messages of a level are written.
    pub fn log_path(&self, level: &str) -> (r: String)
        ensures
            r@ == log_file(self.path@, level@),
    {
        let mut v: Vec<char> = Vec::new();
        extend_str(&mut v, self.path.as_str());
        extend_str(&mut v, "/LOGS/");
        extend_str(&mut v, level);
        extend_str(&mut v, ".log");
        assert(v@ =~= log_file(self.path@, level@));
        string_of(v.as_slice())
    }

    /// The line that is written for a message at the given time.
    pub fn log_line(time: &str, msg: &str) -> (r: String)
        ensures
            r@ == log_text(time@, msg@),
    {
        let mut v: Vec<char> = Vec::new();
        extend_str(&mut v, time);
        extend_str(&mut v, " ");
        extend_str(&mut v, msg);
        extend_str(&mut v, "\n");
        assert(v@ =~= log_text(time@, msg@));
        string_of(v.as_slice())
    }

    /// The message that the given parts make.
    pub fn join_spans(spans: &Vec<String>) -> (r: String)
        ensures
            r@ == joined(spans@.map_values(|s: String| s@)),
    {
        let mut v: Vec<char> = Vec::new();
        let ghost all = spans@.map_values(|s: String| s@);
        let mut i: usize = 0;
        assert(all.take(0) =~= Seq::<Seq<char>>::empty());
        while i < spans.len()
            invariant
                i <= spans.len(),
                all == spans@.map_values(|s: String| s@),
                v@ == joined(all.take(i as int)),
            decreases spans.len() - i,
        {
            let ghost next = all.take(i + 1);
            assert(next.drop_last() =~= all.take(i as int));
            assert(next.last() == spans@[i as int]@);
            if i > 0 {
                extend_str(&mut v, ", ");
            }
            extend_str(&mut v, spans[i].as_str());
            proof {
                if i == 0 {
                    assert(next[0] == spans@[0]@);
                }
                assert(v@ =~= joined(next));
            }
            i += 1;
        }
        assert(all.take(all.len() as int) =~= all);
        string_of(v.as_slice())
    }
}

} // verus!
