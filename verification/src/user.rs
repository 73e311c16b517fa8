//! The user block of a report: id, name and email, each optional and omitted
//! entirely from the JSON when absent.

use crate::jsontext::{append_comma_join, append_json_str, comma_join, json_str, push_char};
use vstd::prelude::*;
use vstd::string::StringExecFns;

verus! {

/// Information about the user affected by the reported error.
pub struct User {
    id: Option<String>,
    name: Option<String>,
    email: Option<String>,
}

/// The mathematical content of a user block.
pub struct UserModel {
    pub id: Option<Seq<char>>,
    pub name: Option<Seq<char>>,
    pub email: Option<Seq<char>>,
}

impl View for User {
    type V = UserModel;

    closed spec fn view(&self) -> UserModel {
        UserModel {
            id: self.id.deep_view(),
            name: self.name.deep_view(),
            email: self.email.deep_view(),
        }
    }
}

/// The members of a user block's JSON object: only the fields that are
/// present, in a fixed order.
pub open spec fn user_fields(u: UserModel) -> Seq<Seq<char>> {
    (match u.id {
        Some(v) => seq!["\"id\":"@ + json_str(v)],
        None => Seq::empty(),
    }) + (match u.name {
        Some(v) => seq!["\"name\":"@ + json_str(v)],
        None => Seq::empty(),
    }) + (match u.email {
        Some(v) => seq!["\"email\":"@ + json_str(v)],
        None => Seq::empty(),
    })
}

/// The JSON object for a user block.
pub open spec fn user_json(u: UserModel) -> Seq<char> {
    seq!['{'] + comma_join(user_fields(u)) + seq!['}']
}

impl User {
    /// A user block with all three fields set.
    pub fn new(id: &str, name: &str, email: &str) -> (u: User)
        ensures
            u@.id == Some(id@),
            u@.name == Some(name@),
            u@.email == Some(email@),
    {
        User { id: Some(id.to_owned()), name: Some(name.to_owned()), email: Some(email.to_owned()) }
    }

    /// A user block with only the id set.
    pub fn new_id(id: &str) -> (u: User)
        ensures
            u@.id == Some(id@),
            u@.name is None,
            u@.email is None,
    {
        User { id: Some(id.to_owned()), name: None, email: None }
    }

    /// A user block with only the name set.
    pub fn new_name(name: &str) -> (u: User)
        ensures
            u@.id is None,
            u@.name == Some(name@),
            u@.email is None,
    {
        User { id: None, name: Some(name.to_owned()), email: None }
    }

    /// A user block with only the email set.
    pub fn new_email(email: &str) -> (u: User)
        ensures
            u@.id is None,
            u@.name is None,
            u@.email == Some(email@),
    {
        User { id: None, name: None, email: Some(email.to_owned()) }
    }

    /// Replaces the id.
    pub fn id(&mut self, id: &str)
        ensures
            final(self)@ == (UserModel { id: Some(id@), ..old(self)@ }),
    {
        self.id = Some(id.to_owned());
    }

    /// Replaces the name.
    pub fn name(&mut self, name: &str)
        ensures
            final(self)@ == (UserModel { name: Some(name@), ..old(self)@ }),
    {
        self.name = Some(name.to_owned());
    }

    /// Replaces the email.
    pub fn email(&mut self, email: &str)
        ensures
            final(self)@ == (UserModel { email: Some(email@), ..old(self)@ }),
    {
        self.email = Some(email.to_owned());
    }

    /// Appends this user block's JSON object.
    pub fn append_json(&self, out: &mut String)
        ensures
            final(out)@ == old(out)@ + user_json(self@),
    {
        let mut fields: Vec<String> = Vec::new();
        if let Some(v) = &self.id {
            let mut p = "\"id\":".to_owned();
            append_json_str(&mut p, v.as_str());
            fields.push(p);
        }
        if let Some(v) = &self.name {
            let mut p = "\"name\":".to_owned();
            append_json_str(&mut p, v.as_str());
            fields.push(p);
        }
        if let Some(v) = &self.email {
            let mut p = "\"email\":".to_owned();
            append_json_str(&mut p, v.as_str());
            fields.push(p);
        }
        proof {
            assert(fields.deep_view() =~= user_fields(self@));
        }
        push_char(out, '{');
        append_comma_join(out, &fields);
        push_char(out, '}');
        proof {
            assert(final(out)@ =~= old(out)@ + user_json(self@));
        }
    }
}

impl Clone for User {
    fn clone(&self) -> (r: Self)
        ensures
            r@ == self@,
    {
        User {
            id: match &self.id {
                Some(v) => Some(v.clone()),
                None => None,
            },
            name: match &self.name {
                Some(v) => Some(v.clone()),
                None => None,
            },
            email: match &self.email {
                Some(v) => Some(v.clone()),
                None => None,
            },
        }
    }
}

} // verus!
