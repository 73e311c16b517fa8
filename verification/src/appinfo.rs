//! The application block of a report: version, release stage and type, each
//! optional and omitted entirely from the JSON when absent.

use crate::jsontext::{append_comma_join, append_json_str, comma_join, json_str, push_char};
use vstd::prelude::*;
use vstd::string::StringExecFns;

verus! {

/// Information about the application the report concerns.
pub struct AppInfo {
    version: Option<String>,
    release_stage: Option<String>,
    atype: Option<String>,
}

/// The mathematical content of an application block.
pub struct AppInfoModel {
    pub version: Option<Seq<char>>,
    pub release_stage: Option<Seq<char>>,
    pub atype: Option<Seq<char>>,
}

impl View for AppInfo {
    type V = AppInfoModel;

    closed spec fn view(&self) -> AppInfoModel {
        AppInfoModel {
            version: self.version.deep_view(),
            release_stage: self.release_stage.deep_view(),
            atype: self.atype.deep_view(),
        }
    }
}

/// The members of an application block's JSON object: only the fields that
/// are present, in a fixed order.
pub open spec fn app_info_fields(a: AppInfoModel) -> Seq<Seq<char>> {
    (match a.version {
        Some(v) => seq!["\"version\":"@ + json_str(v)],
        None => Seq::empty(),
    }) + (match a.release_stage {
        Some(v) => seq!["\"releaseStage\":"@ + json_str(v)],
        None => Seq::empty(),
    }) + (match a.atype {
        Some(v) => seq!["\"type\":"@ + json_str(v)],
        None => Seq::empty(),
    })
}

/// The JSON object for an application block.
pub open spec fn app_info_json(a: AppInfoModel) -> Seq<char> {
    seq!['{'] + comma_join(app_info_fields(a)) + seq!['}']
}

impl AppInfo {
    /// An application block with the given fields; a `None` stays absent.
    pub fn new(version: Option<&str>, release_stage: Option<&str>, atype: Option<&str>) -> (a:
        AppInfo)
        ensures
            a@.version == version.deep_view(),
            a@.release_stage == release_stage.deep_view(),
            a@.atype == atype.deep_view(),
    {
        AppInfo {
            version: match version {
                Some(v) => Some(v.to_owned()),
                None => None,
            },
            release_stage: match release_stage {
                Some(v) => Some(v.to_owned()),
                None => None,
            },
            atype: match atype {
                Some(v) => Some(v.to_owned()),
                None => None,
            },
        }
    }

    /// Appends this application block's JSON object.
    pub fn append_json(&self, out: &mut String)
        ensures
            final(out)@ == old(out)@ + app_info_json(self@),
    {
        let mut fields: Vec<String> = Vec::new();
        if let Some(v) = &self.version {
            let mut p = "\"version\":".to_owned();
            append_json_str(&mut p, v.as_str());
            fields.push(p);
        }
        if let Some(v) = &self.release_stage {
            let mut p = "\"releaseStage\":".to_owned();
            append_json_str(&mut p, v.as_str());
            fields.push(p);
        }
        if let Some(v) = &self.atype {
            let mut p = "\"type\":".to_owned();
            append_json_str(&mut p, v.as_str());
            fields.push(p);
        }
        proof {
            assert(fields.deep_view() =~= app_info_fields(self@));
        }
        push_char(out, '{');
        append_comma_join(out, &fields);
        push_char(out, '}');
        proof {
            assert(final(out)@ =~= old(out)@ + app_info_json(self@));
        }
    }
}

impl Clone for AppInfo {
    fn clone(&self) -> (r: Self)
        ensures
            r@ == self@,
    {
        AppInfo {
            version: match &self.version {
                Some(v) => Some(v.clone()),
                None => None,
            },
            release_stage: match &self.release_stage {
                Some(v) => Some(v.clone()),
                None => None,
            },
            atype: match &self.atype {
                Some(v) => Some(v.clone()),
                None => None,
            },
        }
    }
}

} // verus!
