//! The exception block of a report: error class, message and stack trace.

use crate::jsontext::{append_comma_join, append_json_str, comma_join, json_str};
use crate::stacktrace::{frame_json, Frame, FrameModel};
use vstd::prelude::*;
use vstd::string::StringExecFns;

verus! {

/// One reported exception.
pub struct Exception {
    error_class: String,
    message: String,
    stacktrace: Vec<Frame>,
}

/// The mathematical content of an exception block.
pub struct ExceptionModel {
    pub error_class: Seq<char>,
    pub message: Seq<char>,
    pub stacktrace: Seq<FrameModel>,
}

impl View for Exception {
    type V = ExceptionModel;

    closed spec fn view(&self) -> ExceptionModel {
        ExceptionModel {
            error_class: self.error_class@,
            message: self.message@,
            stacktrace: self.stacktrace.deep_view(),
        }
    }
}

impl DeepView for Exception {
    type V = ExceptionModel;

    open spec fn deep_view(&self) -> ExceptionModel {
        self.view()
    }
}

/// The JSON object for an exception block: all three fields always present,
/// the stack trace as an array of frame objects.
pub open spec fn exception_json(e: ExceptionModel) -> Seq<char> {
    "{\"errorClass\":"@ + json_str(e.error_class) + ",\"message\":"@ + json_str(e.message)
        + ",\"stacktrace\":["@ + comma_join(e.stacktrace.map_values(|f: FrameModel| frame_json(f)))
        + "]}"@
}

impl Exception {
    /// An exception block with the given class, message and stack trace.
    pub fn new(errorclass: &str, message: &str, stacktrace: &Vec<Frame>) -> (e: Exception)
        ensures
            e@.error_class == errorclass@,
            e@.message == message@,
            e@.stacktrace == stacktrace.deep_view(),
    {
        let mut frames: Vec<Frame> = Vec::new();
        let mut i: usize = 0;
        while i < stacktrace.len()
            invariant
                i <= stacktrace.len(),
                frames.deep_view() =~= stacktrace.deep_view().take(i as int),
            decreases stacktrace.len() - i,
        {
            let ghost pre = frames.deep_view();
            frames.push(stacktrace[i].clone());
            proof {
                assert(frames.deep_view() =~= pre.push(stacktrace@[i as int].deep_view()));
                assert(stacktrace.deep_view().take(i + 1) =~= pre.push(
                    stacktrace.deep_view()[i as int],
                ));
            }
            i = i + 1;
        }
        proof {
            assert(stacktrace.deep_view().take(stacktrace.len() as int) =~= stacktrace.deep_view());
        }
        Exception { error_class: errorclass.to_owned(), message: message.to_owned(), stacktrace: frames }
    }

    /// Appends this exception block's JSON object.
    pub fn append_json(&self, out: &mut String)
        ensures
            final(out)@ == old(out)@ + exception_json(self@),
    {
        let mut frames: Vec<String> = Vec::new();
        let mut i: usize = 0;
        while i < self.stacktrace.len()
            invariant
                i <= self.stacktrace.len(),
                frames.deep_view() =~= self.stacktrace.deep_view().take(i as int).map_values(
                    |f: FrameModel| frame_json(f),
                ),
            decreases self.stacktrace.len() - i,
        {
            let mut p = String::new();
            self.stacktrace[i].append_json(&mut p);
            proof {
                assert(p@ =~= frame_json(self.stacktrace@[i as int]@));
            }
            let ghost pre = frames.deep_view();
            frames.push(p);
            proof {
                assert(frames.deep_view() =~= pre.push(p@));
                assert(self.stacktrace.deep_view().take(i + 1).map_values(
                    |f: FrameModel| frame_json(f),
                ) =~= pre.push(p@));
            }
            i = i + 1;
        }
        proof {
            assert(self.stacktrace.deep_view().take(self.stacktrace.len() as int)
                =~= self.stacktrace.deep_view());
        }
        out.append("{\"errorClass\":");
        append_json_str(out, self.error_class.as_str());
        out.append(",\"message\":");
        append_json_str(out, self.message.as_str());
        out.append(",\"stacktrace\":[");
        append_comma_join(out, &frames);
        out.append("]}");
        proof {
            assert(final(out)@ =~= old(out)@ + exception_json(self@));
        }
    }
}

impl Clone for Exception {
    fn clone(&self) -> (r: Self)
        ensures
            r@ == self@,
    {
        Exception::new(self.error_class.as_str(), self.message.as_str(), &self.stacktrace)
    }
}

} // verus!
