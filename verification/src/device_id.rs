//! IEEE 1284 device IDs: `KEY:value;` pairs such as
//! `MFG:Acme;MDL:Laser 9000;SN:ABC123;`, with the manufacturer, model and
//! serial number read under their long or short keys.

use vstd::prelude::*;
use crate::text::{
    chars_of, eq_ignore_case, eq_ignore_case_vec, split_on, split_on_exec, split_once,
    split_once_exec, string_of, trim, trim_vec,
};

verus! {

/// A parsed device ID and the text it was parsed from.
#[derive(Clone, Debug, PartialEq, Eq)]
pub struct DeviceId {
    raw: String,
    /// Keys and values, trimmed, in the order they appear.
    fields: Vec<(String, String)>,
}

pub open spec fn fields_view(fields: Seq<(String, String)>) -> Seq<(Seq<char>, Seq<char>)> {
    fields.map_values(|f: (String, String)| (f.0@, f.1@))
}

/// The fields a device ID holds: every `;`-separated piece with a `:`, key
/// and value trimmed; pieces without a key are skipped.
pub open spec fn parse_fields(pieces: Seq<Seq<char>>) -> Seq<(Seq<char>, Seq<char>)>
    decreases pieces.len(),
{
    if pieces.len() == 0 {
        Seq::empty()
    } else {
        let rest = parse_fields(pieces.drop_last());
        match split_once(pieces.last(), ":"@) {
            Some((k, v)) => if trim(k).len() > 0 {
                rest.push((trim(k), trim(v)))
            } else {
                rest
            },
            None => rest,
        }
    }
}

/// The first non-empty value under any of the keys, keys compared without case.
pub open spec fn field_value(fields: Seq<(Seq<char>, Seq<char>)>, keys: Seq<Seq<char>>) -> Option<Seq<char>>
    decreases fields.len(),
{
    if fields.len() == 0 {
        None
    } else if fields[0].1.len() > 0 && exists|i: int| 0 <= i < keys.len() && eq_ignore_case(fields[0].0, #[trigger] keys[i]) {
        Some(fields[0].1)
    } else {
        field_value(fields.drop_first(), keys)
    }
}

pub open spec fn manufacturer_keys() -> Seq<Seq<char>> {
    seq!["MFG"@, "MANUFACTURER"@]
}

pub open spec fn model_keys() -> Seq<Seq<char>> {
    seq!["MDL"@, "MODEL"@]
}

pub open spec fn serial_keys() -> Seq<Seq<char>> {
    seq!["SN"@, "SERN"@, "SERIALNUMBER"@]
}

impl DeviceId {
    pub closed spec fn raw_text(&self) -> Seq<char> {
        self.raw@
    }

    pub closed spec fn fields_of(&self) -> Seq<(Seq<char>, Seq<char>)> {
        fields_view(self.fields@)
    }

    /// Parses a device ID.
    pub fn parse(raw: &str) -> (r: Self)
        ensures
            r.raw_text() == raw@,
            r.fields_of() == parse_fields(split_on(raw@, seq![';'])),
    {
        let semi = vec![';'];
        assert(semi@ =~= seq![';']);
        let pieces = split_on_exec(&chars_of(raw), &semi);
        let ghost all = pieces.deep_view();
        let colon = chars_of(":");
        let mut fields: Vec<(String, String)> = Vec::new();
        let mut i: usize = 0;
        while i < pieces.len()
            invariant
                i <= pieces.len(),
                all == pieces.deep_view(),
                all.len() == pieces.len(),
                colon@ == ":"@,
                fields_view(fields@) == parse_fields(all.take(i as int)),
            decreases pieces.len() - i,
        {
            proof {
                assert(all.take(i + 1).drop_last() =~= all.take(i as int));
                assert(all.take(i + 1).last() == pieces[i as int]@);
            }
            let ghost before = fields_view(fields@);
            match split_once_exec(&pieces[i], &colon) {
                Some((k, v)) => {
                    let key = trim_vec(&k);
                    if key.len() > 0 {
                        fields.push((string_of(key), string_of(trim_vec(&v))));
                        assert(fields_view(fields@) =~= before.push((trim(k@), trim(v@))));
                    }
                },
                None => {},
            }
            i += 1;
        }
        assert(all.take(pieces.len() as int) =~= all);
        DeviceId { raw: string_of(chars_of(raw)), fields }
    }

    /// The text the ID was parsed from.
    pub fn raw(&self) -> (r: &str)
        ensures
            r@ == self.raw_text(),
    {
        self.raw.as_str()
    }

    /// Whether the ID holds no field at all.
    pub fn is_empty(&self) -> (r: bool)
        ensures
            r == (self.fields_of().len() == 0),
    {
        self.fields.len() == 0
    }

    fn lookup(&self, keys: &Vec<&'static str>) -> (r: Option<&str>)
        ensures
            match r {
                Some(v) => field_value(self.fields_of(), keys@.map_values(|k: &'static str| k@)) == Some(v@),
                None => field_value(self.fields_of(), keys@.map_values(|k: &'static str| k@)) is None,
            },
    {
        let ghost ks = keys@.map_values(|k: &'static str| k@);
        let ghost all = self.fields_of();
        let mut i: usize = 0;
        assert(all.skip(0) =~= all);
        while i < self.fields.len()
            invariant
                i <= self.fields.len(),
                all == self.fields_of(),
                all.len() == self.fields.len(),
                ks == keys@.map_values(|k: &'static str| k@),
                field_value(all, ks) == field_value(all.skip(i as int), ks),
            decreases self.fields.len() - i,
        {
            let ghost here = all.skip(i as int);
            proof {
                assert(here.drop_first() =~= all.skip(i + 1));
                assert(here[0] == (self.fields@[i as int].0@, self.fields@[i as int].1@));
            }
            let (key, value) = (&self.fields[i].0, &self.fields[i].1);
            let mut hit = false;
            let mut j: usize = 0;
            while j < keys.len()
                invariant
                    j <= keys.len(),
                    ks == keys@.map_values(|k: &'static str| k@),
                    hit <==> exists|m: int| 0 <= m < j && eq_ignore_case(key@, #[trigger] ks[m]),
                decreases keys.len() - j,
            {
                if eq_ignore_case_vec(&chars_of(key.as_str()), &chars_of(keys[j])) {
                    assert(eq_ignore_case(key@, ks[j as int]));
                    hit = true;
                }
                j += 1;
            }
            if hit && value.as_str().unicode_len() > 0 {
                return Some(value.as_str());
            }
            i += 1;
        }
        assert(all.skip(i as int) =~= Seq::<(Seq<char>, Seq<char>)>::empty());
        None
    }

    /// The manufacturer (`MFG` or `MANUFACTURER`).
    pub fn manufacturer(&self) -> (r: Option<&str>)
        ensures
            match r {
                Some(v) => field_value(self.fields_of(), manufacturer_keys()) == Some(v@),
                None => field_value(self.fields_of(), manufacturer_keys()) is None,
            },
    {
        let keys = vec!["MFG", "MANUFACTURER"];
        assert(keys@.map_values(|k: &'static str| k@) =~= manufacturer_keys());
        self.lookup(&keys)
    }

    /// The model (`MDL` or `MODEL`).
    pub fn model(&self) -> (r: Option<&str>)
        ensures
            match r {
                Some(v) => field_value(self.fields_of(), model_keys()) == Some(v@),
                None => field_value(self.fields_of(), model_keys()) is None,
            },
    {
        let keys = vec!["MDL", "MODEL"];
        assert(keys@.map_values(|k: &'static str| k@) =~= model_keys());
        self.lookup(&keys)
    }

    /// The serial number (`SN`, `SERN` or `SERIALNUMBER`).
    pub fn serial_number(&self) -> (r: Option<&str>)
        ensures
            match r {
                Some(v) => field_value(self.fields_of(), serial_keys()) == Some(v@),
                None => field_value(self.fields_of(), serial_keys()) is None,
            },
    {
        let keys = vec!["SN", "SERN", "SERIALNUMBER"];
        assert(keys@.map_values(|k: &'static str| k@) =~= serial_keys());
        self.lookup(&keys)
    }
}

} // verus!
