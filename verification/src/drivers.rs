//! `PAPPL-Find-Drivers`: does this Printer Application have a driver for
//! this device? Driver identifiers are scoped to the application that
//! reported them and are never carried across.

use vstd::prelude::*;
use crate::client::{MAX_COLLECTIONS, PaError, bounded, bounded_spec};
use crate::text::{chars_of, eq_ignore_case, str_eq_ignore_case, string_of, trim, trim_str};

verus! {

/// The value that asks a Printer Application to select the driver itself.
pub const AUTOMATIC_DRIVER: &'static str = "auto";

/// How many times to ask about a device before treating silence as the answer.
pub const ATTEMPTS: u32 = 3;

/// How long to wait before asking again, in milliseconds.
pub const RETRY_DELAY_MS: u64 = 250;

/// A driver one Printer Application offers for a device.
#[derive(Clone, Debug, PartialEq, Eq)]
pub struct PaDriver {
    /// The driver name to pass back as `smi55357-driver`.
    pub id: String,
    pub display_name: String,
    /// The device ID pattern the driver matches, when reported.
    pub supported_device_id: Option<String>,
}

/// A driver as plain values.
pub struct PaDriverView {
    pub id: Seq<char>,
    pub display_name: Seq<char>,
    pub supported_device_id: Option<Seq<char>>,
}

impl View for PaDriver {
    type V = PaDriverView;

    open spec fn view(&self) -> PaDriverView {
        PaDriverView {
            id: self.id@,
            display_name: self.display_name@,
            supported_device_id: crate::ipp::opt_view(self.supported_device_id),
        }
    }
}

impl PaDriver {
    /// A copy of the driver.
    pub fn duplicate(&self) -> (r: Self)
        ensures
            r@ == self@,
    {
        PaDriver {
            id: self.id.clone(),
            display_name: self.display_name.clone(),
            supported_device_id: match &self.supported_device_id {
                Some(d) => Some(d.clone()),
                None => None,
            },
        }
    }
}

/// Whether a Printer Application can drive a device.
#[derive(Clone, Debug, PartialEq, Eq)]
pub enum PaDriverMatch {
    /// Support has not been checked.
    Unchecked,
    /// The application has at least one matching driver.
    Supported { drivers: Vec<PaDriver> },
    /// The application already has a printer for this device.
    AlreadyConfigured { printer_name: String },
    /// The application reported no matching driver.
    Unsupported,
    /// The application wants credentials before it will answer.
    AuthenticationRequired,
    /// The application could not be asked.
    Unavailable,
    /// The application answered, but the response could not be read.
    MalformedResponse,
}

/// A driver match as plain values.
pub enum PaDriverMatchView {
    Unchecked,
    Supported(Seq<PaDriverView>),
    AlreadyConfigured(Seq<char>),
    Unsupported,
    AuthenticationRequired,
    Unavailable,
    MalformedResponse,
}

pub open spec fn drivers_view(drivers: Seq<PaDriver>) -> Seq<PaDriverView> {
    drivers.map_values(|d: PaDriver| d@)
}

impl View for PaDriverMatch {
    type V = PaDriverMatchView;

    open spec fn view(&self) -> PaDriverMatchView {
        match self {
            PaDriverMatch::Unchecked => PaDriverMatchView::Unchecked,
            PaDriverMatch::Supported { drivers } => PaDriverMatchView::Supported(drivers_view(drivers@)),
            PaDriverMatch::AlreadyConfigured { printer_name } => PaDriverMatchView::AlreadyConfigured(printer_name@),
            PaDriverMatch::Unsupported => PaDriverMatchView::Unsupported,
            PaDriverMatch::AuthenticationRequired => PaDriverMatchView::AuthenticationRequired,
            PaDriverMatch::Unavailable => PaDriverMatchView::Unavailable,
            PaDriverMatch::MalformedResponse => PaDriverMatchView::MalformedResponse,
        }
    }
}

fn same_driver(a: &PaDriver, b: &PaDriver) -> (r: bool)
    ensures
        r == (a@ == b@),
{
    let same_sdi = match (&a.supported_device_id, &b.supported_device_id) {
        (Some(x), Some(y)) => crate::text::str_eq(x.as_str(), y.as_str()),
        (None, None) => true,
        _ => false,
    };
    crate::text::str_eq(a.id.as_str(), b.id.as_str()) && crate::text::str_eq(a.display_name.as_str(), b.display_name.as_str())
        && same_sdi
}

/// Copies a list of drivers.
pub fn duplicate_drivers(drivers: &Vec<PaDriver>) -> (r: Vec<PaDriver>)
    ensures
        drivers_view(r@) == drivers_view(drivers@),
{
    let mut out: Vec<PaDriver> = Vec::new();
    let mut i: usize = 0;
    while i < drivers.len()
        invariant
            i <= drivers.len(),
            out@.len() == i,
            forall|k: int| 0 <= k < i ==> (#[trigger] out@[k])@ == drivers@[k]@,
        decreases drivers.len() - i,
    {
        out.push(drivers[i].duplicate());
        i += 1;
    }
    proof {
        assert(drivers_view(out@) =~= drivers_view(drivers@));
    }
    out
}

impl PaDriverMatch {
    /// The driver a creation request names: the one matching driver by its
    /// name, `auto` when several match so the application chooses, and none
    /// unless support was established.
    /// A copy of the match.
    pub fn duplicate(&self) -> (r: Self)
        ensures
            r@ == self@,
    {
        match self {
            PaDriverMatch::Unchecked => PaDriverMatch::Unchecked,
            PaDriverMatch::Supported { drivers } => PaDriverMatch::Supported { drivers: duplicate_drivers(drivers) },
            PaDriverMatch::AlreadyConfigured { printer_name } => PaDriverMatch::AlreadyConfigured {
                printer_name: printer_name.clone(),
            },
            PaDriverMatch::Unsupported => PaDriverMatch::Unsupported,
            PaDriverMatch::AuthenticationRequired => PaDriverMatch::AuthenticationRequired,
            PaDriverMatch::Unavailable => PaDriverMatch::Unavailable,
            PaDriverMatch::MalformedResponse => PaDriverMatch::MalformedResponse,
        }
    }

    /// Whether two matches say the same thing, drivers included.
    pub fn same_as(&self, other: &PaDriverMatch) -> (r: bool)
        ensures
            r == (self@ == other@),
    {
        match (self, other) {
            (PaDriverMatch::Unchecked, PaDriverMatch::Unchecked) => true,
            (PaDriverMatch::Supported { drivers: a }, PaDriverMatch::Supported { drivers: b }) => {
                if a.len() != b.len() {
                    proof {
                        assert(drivers_view(a@).len() != drivers_view(b@).len());
                    }
                    return false;
                }
                let mut i: usize = 0;
                while i < a.len()
                    invariant
                        i <= a.len(),
                        a.len() == b.len(),
                        self@ == PaDriverMatchView::Supported(drivers_view(a@)),
                        other@ == PaDriverMatchView::Supported(drivers_view(b@)),
                        forall|k: int| 0 <= k < i ==> (#[trigger] a@[k])@ == b@[k]@,
                    decreases a.len() - i,
                {
                    if !same_driver(&a[i], &b[i]) {
                        proof {
                            assert(drivers_view(a@)[i as int] != drivers_view(b@)[i as int]);
                        }
                        return false;
                    }
                    i += 1;
                }
                proof {
                    assert(drivers_view(a@) =~= drivers_view(b@));
                }
                true
            },
            (PaDriverMatch::AlreadyConfigured { printer_name: a }, PaDriverMatch::AlreadyConfigured { printer_name: b }) =>
                crate::text::str_eq(a.as_str(), b.as_str()),
            (PaDriverMatch::Unsupported, PaDriverMatch::Unsupported) => true,
            (PaDriverMatch::AuthenticationRequired, PaDriverMatch::AuthenticationRequired) => true,
            (PaDriverMatch::Unavailable, PaDriverMatch::Unavailable) => true,
            (PaDriverMatch::MalformedResponse, PaDriverMatch::MalformedResponse) => true,
            _ => false,
        }
    }

    pub open spec fn creation_driver(self) -> Option<Seq<char>> {
        match self {
            PaDriverMatch::Supported { drivers } => if drivers.len() == 1 {
                Some(drivers[0].id@)
            } else {
                Some(AUTOMATIC_DRIVER@)
            },
            _ => None,
        }
    }

    /// Returns the driver name to send when creating a printer.
    pub fn driver_for_creation(&self) -> (r: Option<&str>)
        ensures
            match r {
                Some(d) => self.creation_driver() == Some(d@),
                None => self.creation_driver() is None,
            },
    {
        match self {
            PaDriverMatch::Supported { drivers } => if drivers.len() == 1 {
                Some(drivers[0].id.as_str())
            } else {
                Some(AUTOMATIC_DRIVER)
            },
            _ => None,
        }
    }

    pub open spec fn answers(self) -> bool {
        self is Supported || self is Unsupported
    }

    /// Whether this is the application's answer about the device rather
    /// than a failure to obtain one.
    pub fn is_an_answer(&self) -> (r: bool)
        ensures
            r == self.answers(),
    {
        match self {
            PaDriverMatch::Supported { .. } | PaDriverMatch::Unsupported => true,
            _ => false,
        }
    }
}

/// The device ID worth asking about: trimmed, and none when nothing is left.
pub fn usable_device_id(device_id: Option<&str>) -> (r: Option<String>)
    ensures
        match device_id {
            Some(d) => if trim(d@).len() > 0 {
                r matches Some(v) && v@ == trim(d@)
            } else {
                r is None
            },
            None => r is None,
        },
{
    match device_id {
        Some(d) => {
            let t = trim_str(d);
            if t.as_str().unicode_len() > 0 {
                Some(t)
            } else {
                None
            }
        },
        None => None,
    }
}

/// Whether to ask about a device again after `attempts_made` tries that
/// produced `matched`: only while tries are left, and only when the last
/// try produced neither an answer nor a request for credentials.
pub fn keep_asking(matched: &PaDriverMatch, attempts_made: u32) -> (r: bool)
    ensures
        r == (attempts_made < ATTEMPTS && !matched.answers() && !(matched is AuthenticationRequired)),
{
    attempts_made < ATTEMPTS && !matched.is_an_answer() && match matched {
        PaDriverMatch::AuthenticationRequired => false,
        _ => true,
    }
}

/// The drivers of a list that are real drivers: `auto` (in any case) asks
/// for a choice and is no driver of its own.
pub open spec fn without_automatic(drivers: Seq<PaDriverView>) -> Seq<PaDriverView>
    decreases drivers.len(),
{
    if drivers.len() == 0 {
        Seq::empty()
    } else {
        let rest = without_automatic(drivers.drop_last());
        if eq_ignore_case(drivers.last().id, AUTOMATIC_DRIVER@) {
            rest
        } else {
            rest.push(drivers.last())
        }
    }
}

/// Turns a `PAPPL-Find-Drivers` reply into what it says about the device:
/// the real drivers it lists (none is an answer too); a request for
/// credentials; an application that cannot match drivers has none for it;
/// an unreadable reply; or, for any other failure, no answer.
pub fn ask_for_drivers(reply: Result<Vec<PaDriver>, PaError>) -> (r: PaDriverMatch)
    ensures
        match reply {
            Ok(drivers) => if without_automatic(drivers_view(drivers@)).len() == 0 {
                r is Unsupported
            } else {
                r matches PaDriverMatch::Supported { drivers: kept } && drivers_view(kept@)
                    == without_automatic(drivers_view(drivers@))
            },
            Err(PaError::AuthenticationRequired) => r is AuthenticationRequired,
            Err(PaError::OperationNotSupported) => r is Unsupported,
            Err(PaError::Malformed { .. }) => r is MalformedResponse,
            Err(_) => r is Unavailable,
        },
{
    match reply {
        Ok(drivers) => {
            let mut kept: Vec<PaDriver> = Vec::new();
            let mut i: usize = 0;
            while i < drivers.len()
                invariant
                    i <= drivers.len(),
                    drivers_view(kept@) == without_automatic(drivers_view(drivers@.take(i as int))),
                decreases drivers.len() - i,
            {
                proof {
                    let pre = drivers_view(drivers@.take(i + 1));
                    assert(pre.drop_last() =~= drivers_view(drivers@.take(i as int)));
                    assert(pre.last() == drivers@[i as int]@);
                }
                let ghost before = drivers_view(kept@);
                if !str_eq_ignore_case(drivers[i].id.as_str(), AUTOMATIC_DRIVER) {
                    kept.push(drivers[i].duplicate());
                    assert(drivers_view(kept@) =~= before.push(drivers@[i as int]@));
                }
                i += 1;
            }
            assert(drivers@.take(drivers.len() as int) =~= drivers@);
            assert(drivers_view(kept@).len() == kept@.len());
            if kept.len() == 0 {
                PaDriverMatch::Unsupported
            } else {
                PaDriverMatch::Supported { drivers: kept }
            }
        },
        Err(PaError::AuthenticationRequired) => PaDriverMatch::AuthenticationRequired,
        Err(PaError::OperationNotSupported) => PaDriverMatch::Unsupported,
        Err(PaError::Malformed { .. }) => PaDriverMatch::MalformedResponse,
        Err(_) => PaDriverMatch::Unavailable,
    }
}

/// One driver collection of a `PAPPL-Find-Drivers` answer.
#[derive(Clone, Debug)]
pub struct DriverRecord {
    /// `smi55357-driver`.
    pub driver: Option<String>,
    /// `smi55357-driver-info`.
    pub driver_info: Option<String>,
    /// `smi55357-device-id`.
    pub device_id: Option<String>,
}

/// One `smi55357-driver-col` attribute of the answer.
#[derive(Clone, Debug)]
pub struct DriverCollectionAttribute {
    /// Whether it came in the System group, where it belongs.
    pub in_system_group: bool,
    /// Whether its value is a collection, as it must be.
    pub is_collection: bool,
    /// Its collections, in order.
    pub collections: Vec<DriverRecord>,
}

pub open spec fn bounded_opt(s: Option<String>) -> Option<Seq<char>> {
    match s {
        Some(v) => Some(bounded_spec(v@)),
        None => None,
    }
}

pub open spec fn driver_ids(drivers: Seq<PaDriverView>) -> Seq<Seq<char>> {
    drivers.map_values(|d: PaDriverView| d.id)
}

/// The drivers read from the collections `records` after `drivers`: each
/// collection naming a driver not yet read adds it, with its description
/// or else its name, and the device ID it matched, each bounded; reading
/// stops once `MAX_COLLECTIONS` drivers are read.
pub open spec fn read_driver_records(drivers: Seq<PaDriverView>, records: Seq<DriverRecord>) -> Seq<PaDriverView>
    decreases records.len(),
{
    if records.len() == 0 {
        drivers
    } else {
        let record = records[0];
        match record.driver {
            None => read_driver_records(drivers, records.drop_first()),
            Some(raw) => {
                let id = bounded_spec(raw@);
                if driver_ids(drivers).contains(id) {
                    read_driver_records(drivers, records.drop_first())
                } else {
                    let driver = PaDriverView {
                        id,
                        display_name: match record.driver_info {
                            Some(info) => bounded_spec(info@),
                            None => id,
                        },
                        supported_device_id: bounded_opt(record.device_id),
                    };
                    let more = drivers.push(driver);
                    if more.len() >= MAX_COLLECTIONS {
                        more
                    } else {
                        read_driver_records(more, records.drop_first())
                    }
                }
            },
        }
    }
}

/// The drivers read from the attributes `attributes` after `drivers`: only
/// collections in the System group are read, at most `MAX_COLLECTIONS` of
/// each attribute.
pub open spec fn read_driver_attributes(drivers: Seq<PaDriverView>, attributes: Seq<DriverCollectionAttribute>) -> Seq<
    PaDriverView,
>
    decreases attributes.len(),
{
    if attributes.len() == 0 {
        drivers
    } else {
        let attribute = attributes[0];
        let read = if attribute.in_system_group && attribute.is_collection {
            let records = attribute.collections@;
            read_driver_records(
                drivers,
                if records.len() < MAX_COLLECTIONS {
                    records
                } else {
                    records.take(MAX_COLLECTIONS as int)
                },
            )
        } else {
            drivers
        };
        read_driver_attributes(read, attributes.drop_first())
    }
}

fn bounded_copy(s: &Option<String>) -> (r: Option<String>)
    ensures
        opt_view_of(r) == bounded_opt(*s),
{
    match s {
        Some(v) => Some(bounded(string_of(chars_of(v.as_str())))),
        None => None,
    }
}

pub open spec fn opt_view_of(s: Option<String>) -> Option<Seq<char>> {
    match s {
        Some(v) => Some(v@),
        None => None,
    }
}

fn has_driver(drivers: &Vec<PaDriver>, id: &str) -> (r: bool)
    ensures
        r == driver_ids(drivers_view(drivers@)).contains(id@),
{
    let mut i: usize = 0;
    while i < drivers.len()
        invariant
            i <= drivers.len(),
            forall|k: int| 0 <= k < i ==> (#[trigger] drivers@[k]).id@ != id@,
        decreases drivers.len() - i,
    {
        if crate::text::str_eq(drivers[i].id.as_str(), id) {
            proof {
                assert(driver_ids(drivers_view(drivers@))[i as int] == id@);
            }
            return true;
        }
        i += 1;
    }
    proof {
        if driver_ids(drivers_view(drivers@)).contains(id@) {
            let k = choose|k: int| 0 <= k < driver_ids(drivers_view(drivers@)).len() && driver_ids(drivers_view(drivers@))[k] == id@;
            assert(drivers@[k].id@ == id@);
        }
    }
    false
}

/// Reads the drivers out of a `PAPPL-Find-Drivers` answer. `not-found` is
/// an application with no driver for the device, an answer and no failure;
/// any other failing status is an error; a success lists what
/// [`read_driver_attributes`] reads.
pub fn drivers_from(
    status: crate::client::IppStatus,
    code: u16,
    status_attributes: &Vec<crate::ipp::IppAttribute>,
    driver_attributes: &Vec<DriverCollectionAttribute>,
) -> (r: Result<Vec<PaDriver>, PaError>)
    ensures
        status is ErrorNotFound ==> (r matches Ok(drivers) && drivers@.len() == 0),
        !(status is ErrorNotFound) && !status.successful() ==> (r matches Err(e) && crate::client::status_error(
            e,
            status,
            code,
            crate::ipp::attributes_view(status_attributes@),
        )),
        !(status is ErrorNotFound) && status.successful() ==> (r matches Ok(drivers) && drivers_view(drivers@)
            == read_driver_attributes(Seq::empty(), driver_attributes@)),
{
    if status == crate::client::IppStatus::ErrorNotFound {
        return Ok(Vec::new());
    }
    match crate::client::check_status(status, code, status_attributes) {
        Ok(()) => {},
        Err(e) => {
            return Err(e);
        },
    }
    let ghost all = driver_attributes@;
    let mut drivers: Vec<PaDriver> = Vec::new();
    let mut a: usize = 0;
    proof {
        assert(all.skip(0) =~= all);
        assert(drivers_view(drivers@) =~= Seq::<PaDriverView>::empty());
    }
    while a < driver_attributes.len()
        invariant
            a <= driver_attributes.len(),
            all == driver_attributes@,
            read_driver_attributes(Seq::empty(), all) == read_driver_attributes(drivers_view(drivers@), all.skip(a as int)),
        decreases driver_attributes.len() - a,
    {
        let attribute = &driver_attributes[a];
        let ghost rest = all.skip(a as int);
        let ghost start = drivers_view(drivers@);
        proof {
            assert(rest[0] == *attribute);
            assert(rest.drop_first() =~= all.skip(a + 1));
        }
        if attribute.in_system_group && attribute.is_collection {
            let limit = if attribute.collections.len() < MAX_COLLECTIONS {
                attribute.collections.len()
            } else {
                MAX_COLLECTIONS
            };
            let ghost records = if attribute.collections@.len() < MAX_COLLECTIONS {
                attribute.collections@
            } else {
                attribute.collections@.take(MAX_COLLECTIONS as int)
            };
            proof {
                assert(records.len() == limit);
                assert(records.skip(0) =~= records);
            }
            let mut c: usize = 0;
            while c < limit
                invariant_except_break
                    c <= limit,
                    limit == records.len(),
                    limit <= attribute.collections@.len(),
                    forall|j: int| 0 <= j < limit ==> records[j] == attribute.collections@[j],
                    read_driver_records(start, records) == read_driver_records(drivers_view(drivers@), records.skip(c as int)),
                ensures
                    read_driver_records(start, records) == drivers_view(drivers@),
                decreases limit - c,
            {
                let record = &attribute.collections[c];
                let ghost tail = records.skip(c as int);
                proof {
                    assert(tail[0] == *record);
                    assert(tail.drop_first() =~= records.skip(c + 1));
                }
                match &record.driver {
                    None => {},
                    Some(raw) => {
                        let id = bounded(string_of(chars_of(raw.as_str())));
                        if !has_driver(&drivers, id.as_str()) {
                            let display_name = match &record.driver_info {
                                Some(info) => bounded(string_of(chars_of(info.as_str()))),
                                None => string_of(chars_of(id.as_str())),
                            };
                            let supported_device_id = bounded_copy(&record.device_id);
                            let ghost before = drivers_view(drivers@);
                            drivers.push(PaDriver { id, display_name, supported_device_id });
                            proof {
                                assert(drivers_view(drivers@) =~= before.push(drivers@.last()@));
                            }
                            if drivers.len() >= MAX_COLLECTIONS {
                                break;
                            }
                        }
                    },
                }
                c += 1;
            }
            proof {
                if c == limit && read_driver_records(start, records) == read_driver_records(drivers_view(drivers@), records.skip(c as int)) {
                    assert(records.skip(c as int) =~= Seq::<DriverRecord>::empty());
                }
            }
        }
        a += 1;
    }
    proof {
        assert(all.skip(a as int) =~= Seq::<DriverCollectionAttribute>::empty());
    }
    Ok(drivers)
}

} // verus!
