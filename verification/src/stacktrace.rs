//! A single stack frame as it appears in a report. Capturing a call stack and
//! classifying frames as in-project is a collaborator's job; the library only
//! carries the frames and serializes them.

use crate::jsontext::{append_dec_u64, append_json_bool, append_json_str, dec_u64, json_bool,
    json_str};
use vstd::prelude::*;
use vstd::string::StringExecFns;

verus! {

/// One frame of a stack trace.
pub struct Frame {
    file: String,
    line_number: u32,
    method: String,
    in_project: bool,
}

/// The mathematical content of a frame.
pub struct FrameModel {
    pub file: Seq<char>,
    pub line_number: u32,
    pub method: Seq<char>,
    pub in_project: bool,
}

impl View for Frame {
    type V = FrameModel;

    closed spec fn view(&self) -> FrameModel {
        FrameModel {
            file: self.file@,
            line_number: self.line_number,
            method: self.method@,
            in_project: self.in_project,
        }
    }
}

impl DeepView for Frame {
    type V = FrameModel;

    open spec fn deep_view(&self) -> FrameModel {
        self.view()
    }
}

/// The JSON object for one frame.
pub open spec fn frame_json(f: FrameModel) -> Seq<char> {
    "{\"file\":"@ + json_str(f.file) + ",\"lineNumber\":"@ + dec_u64(f.line_number as nat)
        + ",\"method\":"@ + json_str(f.method) + ",\"inProject\":"@ + json_bool(f.in_project)
        + "}"@
}

impl Frame {
    /// A frame with the given source location, method name and in-project mark.
    pub fn new(file: &str, linenumber: u32, method: &str, in_project: bool) -> (f: Frame)
        ensures
            f@.file == file@,
            f@.line_number == linenumber,
            f@.method == method@,
            f@.in_project == in_project,
    {
        Frame { file: file.to_owned(), line_number: linenumber, method: method.to_owned(), in_project }
    }

    /// Appends this frame's JSON object.
    pub fn append_json(&self, out: &mut String)
        ensures
            final(out)@ == old(out)@ + frame_json(self@),
    {
        out.append("{\"file\":");
        append_json_str(out, self.file.as_str());
        out.append(",\"lineNumber\":");
        append_dec_u64(out, self.line_number as u64);
        out.append(",\"method\":");
        append_json_str(out, self.method.as_str());
        out.append(",\"inProject\":");
        append_json_bool(out, self.in_project);
        out.append("}");
        proof {
            assert(final(out)@ =~= old(out)@ + frame_json(self@));
        }
    }
}

impl Clone for Frame {
    fn clone(&self) -> (r: Self)
        ensures
            r@ == self@,
    {
        Frame {
            file: self.file.clone(),
            line_number: self.line_number,
            method: self.method.clone(),
            in_project: self.in_project,
        }
    }
}

} // verus!
