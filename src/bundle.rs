//! The plaintext a caller stores for one service, and its JSON form.

use vstd::prelude::*;
use crate::codec::{
    fields_view,
    json_decode_object,
    json_encode_object,
    json_object_fields,
    json_object_text,
    names_ascending,
    text_less,
    Fields,
};
use crate::error::VaultError;

verus! {

/// Credentials for one service; never persisted in the clear.
#[derive(Clone, Debug)]
pub struct SecretBundle {
    pub username: String,
    pub secret: String,
    pub notes: Option<String>,
}

/// A bundle as values: username, secret, notes.
pub type BundleView = (Seq<char>, Seq<char>, Option<Seq<char>>);

impl View for SecretBundle {
    type V = BundleView;

    open spec fn view(&self) -> BundleView {
        (
            self.username@,
            self.secret@,
            match self.notes {
                Some(n) => Some(n@),
                None => None,
            },
        )
    }
}

impl PartialEq for SecretBundle {
    fn eq(&self, o: &SecretBundle) -> (r: bool) {
        let same_notes = match (&self.notes, &o.notes) {
            (Some(a), Some(b)) => *a == *b,
            (None, None) => true,
            _ => false,
        };
        self.username == o.username && self.secret == o.secret && same_notes
    }
}

impl vstd::std_specs::cmp::PartialEqSpecImpl for SecretBundle {
    open spec fn obeys_eq_spec() -> bool {
        true
    }

    open spec fn eq_spec(&self, o: &SecretBundle) -> bool {
        self@ == o@
    }
}

/// The members a bundle is serialized to, in name order.
pub open spec fn bundle_fields(b: BundleView) -> Fields {
    seq![("notes"@, b.2), ("secret"@, Some(b.1)), ("username"@, Some(b.0))]
}

/// The value of the first member with the given name.
pub open spec fn field_value(fields: Fields, name: Seq<char>) -> Option<Option<Seq<char>>>
    decreases fields.len(),
{
    if fields.len() == 0 {
        None
    } else if fields[0].0 == name {
        Some(fields[0].1)
    } else {
        field_value(fields.drop_first(), name)
    }
}

/// The bundle that a JSON object's members describe: username and secret
/// must be strings; notes is absent, null or a string.
pub open spec fn bundle_of_fields(fields: Fields) -> Option<BundleView> {
    match (field_value(fields, "username"@), field_value(fields, "secret"@)) {
        (Some(Some(u)), Some(Some(s))) => Some(
            (
                u,
                s,
                match field_value(fields, "notes"@) {
                    Some(Some(n)) => Some(n),
                    _ => None,
                },
            ),
        ),
        _ => None,
    }
}

/// The bundle that a serialized payload holds, if any.
pub open spec fn bundle_decoded(bytes: Seq<u8>) -> Option<BundleView> {
    match json_object_fields(bytes) {
        Some(f) => bundle_of_fields(f),
        None => None,
    }
}

pub open spec fn opt_opt_view(o: Option<Option<String>>) -> Option<Option<Seq<char>>> {
    match o {
        Some(Some(s)) => Some(Some(s@)),
        Some(None) => Some(None),
        None => None,
    }
}

fn find_field(fields: &Vec<(String, Option<String>)>, name: &str) -> (r: Option<Option<String>>)
    ensures
        opt_opt_view(r) == field_value(fields_view(fields@), name@),
{
    let key = name.to_owned();
    let ghost fv = fields_view(fields@);
    let mut i: usize = 0;
    assert(fv.subrange(0, fv.len() as int) =~= fv);
    while i < fields.len()
        invariant
            0 <= i <= fields.len(),
            fv == fields_view(fields@),
            key@ == name@,
            field_value(fv, name@) == field_value(fv.subrange(i as int, fv.len() as int), name@),
        decreases fields.len() - i,
    {
        let ghost rest = fv.subrange(i as int, fv.len() as int);
        assert(rest.drop_first() =~= fv.subrange(i + 1, fv.len() as int));
        assert(rest[0] == fv[i as int]);
        if fields[i].0 == key {
            return match &fields[i].1 {
                Some(v) => Some(Some(v.clone())),
                None => Some(None),
            };
        }
        i = i + 1;
    }
    None
}

/// Reads a bundle from a JSON object's members.
pub fn bundle_from_fields(fields: &Vec<(String, Option<String>)>) -> (r: Option<SecretBundle>)
    ensures
        match r {
            Some(b) => bundle_of_fields(fields_view(fields@)) == Some(b@),
            None => bundle_of_fields(fields_view(fields@)) is None,
        },
{
    let username = find_field(fields, "username");
    let secret = find_field(fields, "secret");
    let notes = find_field(fields, "notes");
    match (username, secret) {
        (Some(Some(u)), Some(Some(s))) => {
            let n = match notes {
                Some(Some(n)) => Some(n),
                _ => None,
            };
            Some(SecretBundle { username: u, secret: s, notes: n })
        },
        _ => None,
    }
}

/// The members a bundle is serialized to.
pub fn bundle_to_fields(b: &SecretBundle) -> (r: Vec<(String, Option<String>)>)
    ensures
        fields_view(r@) == bundle_fields(b@),
{
    let notes = match &b.notes {
        Some(n) => Some(n.clone()),
        None => None,
    };
    let mut r: Vec<(String, Option<String>)> = Vec::new();
    r.push(("notes".to_owned(), notes));
    r.push(("secret".to_owned(), Some(b.secret.clone())));
    r.push(("username".to_owned(), Some(b.username.clone())));
    assert(fields_view(r@) =~= bundle_fields(b@));
    r
}

/// A bundle's members are in name order, and they describe the bundle.
pub proof fn lemma_bundle_fields_round_trip(b: BundleView)
    ensures
        names_ascending(bundle_fields(b)),
        bundle_of_fields(bundle_fields(b)) == Some(b),
{
    reveal_strlit("notes");
    reveal_strlit("secret");
    reveal_strlit("username");
    let f = bundle_fields(b);
    assert(text_less("notes"@, "secret"@));
    assert(text_less("secret"@, "username"@));
    assert(text_less("notes"@, "username"@));
    assert("notes"@ != "username"@);
    assert("secret"@ != "username"@);
    assert("notes"@ != "secret"@);
    assert(f.drop_first().drop_first().drop_first().len() == 0);
    assert(field_value(f, "notes"@) == Some(b.2));
    assert(field_value(f.drop_first().drop_first(), "username"@) == Some(Some(b.0)));
    assert(field_value(f.drop_first(), "username"@) == Some(Some(b.0)));
    assert(field_value(f, "username"@) == Some(Some(b.0)));
    assert(field_value(f.drop_first(), "secret"@) == Some(Some(b.1)));
    assert(field_value(f, "secret"@) == Some(Some(b.1)));
}

/// Serializes a bundle to JSON bytes.
pub fn bundle_to_json(b: &SecretBundle) -> (r: Result<Vec<u8>, VaultError>)
    ensures
        r is Ok,
        r matches Ok(bytes) ==> bytes@ == json_object_text(bundle_fields(b@)),
        r matches Ok(bytes) ==> bundle_decoded(bytes@) == Some(b@),
{
    let fields = bundle_to_fields(b);
    proof {
        lemma_bundle_fields_round_trip(b@);
    }
    match json_encode_object(&fields) {
        Ok(bytes) => Ok(bytes),
        Err(_) => Err(VaultError::EncryptionFailure),
    }
}

/// Reads a bundle back from JSON bytes; anything else is a corrupt vault.
pub fn bundle_from_json(bytes: &[u8]) -> (r: Result<SecretBundle, VaultError>)
    ensures
        match r {
            Ok(b) => bundle_decoded(bytes@) == Some(b@),
            Err(e) => bundle_decoded(bytes@) is None && e == VaultError::CorruptVault,
        },
{
    match json_decode_object(bytes) {
        Ok(fields) => match bundle_from_fields(&fields) {
            Some(b) => Ok(b),
            None => Err(VaultError::CorruptVault),
        },
        Err(_) => Err(VaultError::CorruptVault),
    }
}

} // verus!
