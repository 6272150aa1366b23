//! Listing capture devices, and telling which device is meant.

use crate::error::AudioError;
use crate::text::{concat2, concat4, same, texts};
use vstd::prelude::*;

verus! {

/// What is known of a device.
pub struct DeviceDescription {
    pub name: String,
    pub driver: Option<String>,
}

/// A device as it was found: either half may be out of reach.
pub struct DeviceProbe {
    pub id: Option<String>,
    pub description: Option<DeviceDescription>,
}

/// How a device is used.
#[derive(Clone, Copy, Debug, PartialEq, Eq, Structural)]
pub enum DeviceKind {
    /// It records.
    Input,
    /// What it plays is recorded.
    Loopback,
}

impl DeviceKind {
    /// The name of the kind.
    pub open spec fn spelled(self) -> Seq<char> {
        match self {
            DeviceKind::Input => "input"@,
            DeviceKind::Loopback => "loopback"@,
        }
    }

    /// The name of the kind.
    pub fn name(self) -> (r: &'static str)
        ensures
            r@ == self.spelled(),
            self == DeviceKind::Input ==> r@ == "input"@,
            self == DeviceKind::Loopback ==> r@ == "loopback"@,
    {
        match self {
            DeviceKind::Input => "input",
            DeviceKind::Loopback => "loopback",
        }
    }
}

/// A device of the list.
pub struct DeviceEntry {
    pub id: String,
    pub name: String,
    pub kind: DeviceKind,
}

/// A device of the list, as a value.
#[verifier::ext_equal]
pub struct EntryModel {
    pub id: Seq<char>,
    pub name: Seq<char>,
    pub kind: DeviceKind,
}

impl View for DeviceEntry {
    type V = EntryModel;

    open spec fn view(&self) -> EntryModel {
        EntryModel { id: self.id@, name: self.name@, kind: self.kind }
    }
}

impl DeviceDescription {
    /// The name together with the driver, where that says anything more.
    pub open spec fn displayed(self) -> Seq<char> {
        match self.driver {
            Some(driver) => if driver@ != self.name@ {
                self.name@ + " ("@ + driver@ + ")"@
            } else {
                self.name@
            },
            None => self.name@,
        }
    }
}

/// A name for users. Several devices can share a bare name, so the driver is
/// added to it, as the sound settings of the system show it.
pub fn display_name(desc: &DeviceDescription) -> (r: String)
    ensures
        r@ == desc.displayed(),
{
    match &desc.driver {
        Some(driver) => if !same(driver.as_str(), desc.name.as_str()) {
            concat4(desc.name.as_str(), " (", driver.as_str(), ")")
        } else {
            desc.name.clone()
        },
        None => desc.name.clone(),
    }
}

/// Devices of one name are told apart by their drivers.
pub proof fn drivers_tell_devices_apart(a: DeviceDescription, b: DeviceDescription)
    requires
        a.name@ == b.name@,
        a.driver matches Some(d) && d@ != a.name@,
        match b.driver {
            Some(d) => d@ != a.driver->0@,
            None => true,
        },
    ensures
        a.displayed() != b.displayed(),
{
    reveal_strlit(" (");
    reveal_strlit(")");
    let x = a.driver->0@;
    if b.driver is Some && b.driver->0@ != b.name@ {
        let y = b.driver->0@;
        if a.displayed() == b.displayed() {
            let n = a.name@.len() as int;
            assert(a.displayed().len() == n + 2 + x.len() + 1);
            assert(b.displayed().len() == n + 2 + y.len() + 1);
            assert(a.displayed().subrange(n + 2, n + 2 + x.len()) =~= x);
            assert(b.displayed().subrange(n + 2, n + 2 + y.len()) =~= y);
        }
    } else {
        assert(a.displayed().len() > a.name@.len());
    }
}

impl DeviceProbe {
    /// Whether the device can be listed.
    pub open spec fn is_listed(self) -> bool {
        self.id is Some && self.description is Some
    }

    /// The device in the list.
    pub open spec fn entry(self, kind: DeviceKind) -> EntryModel {
        EntryModel { id: self.id->0@, name: self.description->0.displayed(), kind }
    }
}

/// The devices that can be listed, in order.
pub open spec fn entries(probes: Seq<DeviceProbe>, kind: DeviceKind) -> Seq<EntryModel>
    decreases probes.len(),
{
    if probes.len() == 0 {
        Seq::empty()
    } else {
        let earlier = entries(probes.drop_last(), kind);
        if probes.last().is_listed() {
            earlier.push(probes.last().entry(kind))
        } else {
            earlier
        }
    }
}

/// The entries of a list.
pub open spec fn listed(list: Seq<DeviceEntry>) -> Seq<EntryModel> {
    list.map_values(|e: DeviceEntry| e@)
}

/// A device in the list, if both its identifier and its description are known.
pub fn device_entry(probe: &DeviceProbe, kind: DeviceKind) -> (r: Option<DeviceEntry>)
    ensures
        match r {
            Some(entry) => probe.is_listed() && entry@ == probe.entry(kind),
            None => !probe.is_listed(),
        },
{
    match (&probe.id, &probe.description) {
        (Some(id), Some(description)) => Some(
            DeviceEntry { id: id.clone(), name: display_name(description), kind },
        ),
        _ => None,
    }
}

/// Appends the devices that can be listed.
fn add_entries(list: &mut Vec<DeviceEntry>, probes: &Vec<DeviceProbe>, kind: DeviceKind)
    ensures
        listed(final(list)@) == listed(old(list)@) + entries(probes@, kind),
{
    let mut i: usize = 0;
    assert(listed(list@) + entries(probes@.take(0), kind) =~= listed(list@));
    while i < probes.len()
        invariant
            i <= probes@.len(),
            listed(list@) == listed(old(list)@) + entries(probes@.take(i as int), kind),
        decreases probes@.len() - i,
    {
        let ghost before = listed(list@);
        assert(probes@.take(i + 1).drop_last() =~= probes@.take(i as int));
        match device_entry(&probes[i], kind) {
            Some(entry) => {
                list.push(entry);
                assert(listed(list@) =~= before.push(entry@));
            },
            None => {},
        }
        assert(listed(list@) =~= listed(old(list)@) + entries(probes@.take(i + 1), kind));
        i += 1;
    }
    assert(probes@.take(i as int) =~= probes@);
}

/// The list of capture devices: all that record, followed by those whose
/// playback can be recorded. `outputs` is `None` where playback cannot be
/// recorded, and is not asked for when the inputs could not be enumerated.
pub fn device_list(
    inputs: Result<Vec<DeviceProbe>, String>,
    outputs: Option<Result<Vec<DeviceProbe>, String>>,
) -> (r: Result<Vec<DeviceEntry>, AudioError>)
    ensures
        match (inputs, outputs) {
            (Err(cause), _) => {
                r matches Err(e) && e.says_io_error(
                    "Failed to enumerate input devices: "@ + cause@,
                )
            },
            (Ok(_), Some(Err(cause))) => {
                r matches Err(e) && e.says_io_error(
                    "Failed to enumerate output devices: "@ + cause@,
                )
            },
            (Ok(probes), None) => {
                r matches Ok(list) && listed(list@) == entries(probes@, DeviceKind::Input)
            },
            (Ok(probes), Some(Ok(more))) => {
                r matches Ok(list) && listed(list@) == entries(probes@, DeviceKind::Input)
                    + entries(more@, DeviceKind::Loopback)
            },
        },
{
    let probes = match inputs {
        Ok(probes) => probes,
        Err(cause) => {
            return Err(
                AudioError::IoError(
                    concat2("Failed to enumerate input devices: ", cause.as_str()),
                ),
            );
        },
    };
    let mut list: Vec<DeviceEntry> = Vec::new();
    add_entries(&mut list, &probes, DeviceKind::Input);
    assert(listed(Seq::<DeviceEntry>::empty()) + entries(probes@, DeviceKind::Input) =~= entries(
        probes@,
        DeviceKind::Input,
    ));
    match outputs {
        Some(Ok(more)) => {
            add_entries(&mut list, &more, DeviceKind::Loopback);
            Ok(list)
        },
        Some(Err(cause)) => Err(
            AudioError::IoError(concat2("Failed to enumerate output devices: ", cause.as_str())),
        ),
        None => Ok(list),
    }
}

/// Which device is meant.
pub enum DeviceRequest {
    /// The default microphone.
    DefaultInput,
    /// What the default output plays.
    DefaultOutput,
    /// The device with this identifier.
    ById(String),
}

/// Tells which device a configuration means: nothing is the default
/// microphone, `loopback` is what the default output plays, where the system
/// can record that, and anything else is an identifier.
pub fn device_request(device: &str, has_loopback: bool) -> (r: Result<DeviceRequest, AudioError>)
    ensures
        device@.len() == 0 ==> (r matches Ok(DeviceRequest::DefaultInput)),
        device@ == "loopback"@ && has_loopback ==> (r matches Ok(DeviceRequest::DefaultOutput)),
        device@ == "loopback"@ && !has_loopback ==> (r matches Err(e) && e.says_invalid_config(
            "Loopback capture is only supported on Windows (WASAPI)"@,
        )),
        device@.len() != 0 && device@ != "loopback"@ ==> (r matches Ok(DeviceRequest::ById(id))
            && id@ == device@),
{
    proof {
        reveal_strlit("loopback");
    }
    if device.is_empty() {
        Ok(DeviceRequest::DefaultInput)
    } else if same(device, "loopback") {
        if has_loopback {
            Ok(DeviceRequest::DefaultOutput)
        } else {
            Err(
                AudioError::InvalidConfig(
                    "Loopback capture is only supported on Windows (WASAPI)".to_owned(),
                ),
            )
        }
    } else {
        Ok(DeviceRequest::ById(device.to_owned()))
    }
}

/// There is no default microphone.
pub fn no_default_input() -> (r: AudioError)
    ensures
        r.says_io_error("No default audio input device available"@),
{
    AudioError::IoError("No default audio input device available".to_owned())
}

/// There is no default output.
pub fn no_default_output() -> (r: AudioError)
    ensures
        r.says_io_error("No default audio output device available"@),
{
    AudioError::IoError("No default audio output device available".to_owned())
}

/// An identifier is none.
pub fn invalid_device_id(device: &str, cause: &str) -> (r: AudioError)
    ensures
        r.says_invalid_config("Invalid device ID '"@ + device@ + "': "@ + cause@),
{
    AudioError::InvalidConfig(concat4("Invalid device ID '", device, "': ", cause))
}

/// A list of texts as the standard library's `Debug` writes it.
pub uninterp spec fn debug_text(items: Seq<Seq<char>>) -> Seq<char>;

/// `Debug` of a `Vec<String>` of the standard library, through `format!`. The
/// text depends on the strings alone and is called `debug_text` here; how it
/// quotes and escapes them is left open.
#[verifier::external_body]
fn debug_list(items: &Vec<String>) -> (r: String)
    ensures
        r@ == debug_text(texts(items@)),
{
    format!("{:?}", items)
}

/// The devices that have an identifier, each with its name, in order. A device
/// without a description has an empty name.
pub open spec fn labels(probes: Seq<DeviceProbe>) -> Seq<Seq<char>>
    decreases probes.len(),
{
    if probes.len() == 0 {
        Seq::empty()
    } else {
        let earlier = labels(probes.drop_last());
        match probes.last().id {
            Some(id) => earlier.push(
                id@ + " ("@ + (match probes.last().description {
                    Some(d) => d.displayed(),
                    None => Seq::empty(),
                }) + ")"@,
            ),
            None => earlier,
        }
    }
}

/// The devices that have an identifier, each with its name.
pub fn device_labels(probes: &Vec<DeviceProbe>) -> (r: Vec<String>)
    ensures
        texts(r@) == labels(probes@),
{
    let mut out: Vec<String> = Vec::new();
    let mut i: usize = 0;
    assert(texts(out@) =~= labels(probes@.take(0)));
    while i < probes.len()
        invariant
            i <= probes@.len(),
            texts(out@) == labels(probes@.take(i as int)),
        decreases probes@.len() - i,
    {
        let ghost before = texts(out@);
        assert(probes@.take(i + 1).drop_last() =~= probes@.take(i as int));
        match &probes[i].id {
            Some(id) => {
                let name = match &probes[i].description {
                    Some(description) => display_name(description),
                    None => String::new(),
                };
                assert(name@ =~= (match probes@[i as int].description {
                    Some(d) => d.displayed(),
                    None => Seq::empty(),
                }));
                let label = concat4(id.as_str(), " (", name.as_str(), ")");
                out.push(label);
                assert(texts(out@) =~= before.push(label@));
            },
            None => {},
        }
        i += 1;
    }
    assert(probes@.take(i as int) =~= probes@);
    out
}

/// A name for users is the bare name, unless there is a driver of another name,
/// which then follows in brackets.
pub proof fn a_driver_follows_the_name(desc: DeviceDescription)
    ensures
        desc.driver is None ==> desc.displayed() == desc.name@,
        desc.driver matches Some(driver) ==> {
            &&& driver@ == desc.name@ ==> desc.displayed() == desc.name@
            &&& driver@ != desc.name@ ==> desc.displayed() == desc.name@ + " ("@ + driver@ + ")"@
        },
{
}

/// A list of devices in a row is the lists of its parts in a row. One device is
/// listed, with its identifier, its name for users and its use, exactly when both
/// its identifier and its description are known.
pub proof fn every_known_device_is_listed(
    a: Seq<DeviceProbe>,
    b: Seq<DeviceProbe>,
    probe: DeviceProbe,
    kind: DeviceKind,
)
    ensures
        entries(a + b, kind) == entries(a, kind) + entries(b, kind),
        entries(Seq::empty(), kind).len() == 0,
        match (probe.id, probe.description) {
            (Some(id), Some(description)) => entries(seq![probe], kind) == seq![
                EntryModel { id: id@, name: description.displayed(), kind },
            ],
            _ => entries(seq![probe], kind).len() == 0,
        },
        DeviceKind::Input.spelled() == "input"@,
        DeviceKind::Loopback.spelled() == "loopback"@,
    decreases b.len(),
{
    let one = seq![probe];
    assert(one.drop_last() =~= Seq::empty());
    assert(entries(one.drop_last(), kind) =~= Seq::empty());
    if b.len() == 0 {
        assert(a + b =~= a);
        assert(entries(a + b, kind) =~= entries(a, kind) + entries(b, kind));
    } else {
        every_known_device_is_listed(a, b.drop_last(), probe, kind);
        assert((a + b).drop_last() =~= a + b.drop_last());
        assert(entries(a + b, kind) =~= entries(a, kind) + entries(b, kind));
    }
}

/// The entries of a list are its devices, one by one.
pub proof fn entries_are_those_of_the_list(list: Seq<DeviceEntry>, i: int)
    requires
        0 <= i < list.len(),
    ensures
        listed(list).len() == list.len(),
        listed(list)[i].id == list[i].id@,
        listed(list)[i].name == list[i].name@,
        listed(list)[i].kind == list[i].kind,
{
}

/// The same of the labels of devices: every device with an identifier has one,
/// with its name for users in brackets, which is empty where it is not known.
pub proof fn every_identified_device_is_labelled(
    a: Seq<DeviceProbe>,
    b: Seq<DeviceProbe>,
    probe: DeviceProbe,
)
    ensures
        labels(a + b) == labels(a) + labels(b),
        labels(Seq::empty()).len() == 0,
        match (probe.id, probe.description) {
            (Some(id), Some(description)) => labels(seq![probe]) == seq![
                id@ + " ("@ + description.displayed() + ")"@,
            ],
            (Some(id), None) => labels(seq![probe]) == seq![id@ + " ("@ + ")"@],
            (None, _) => labels(seq![probe]).len() == 0,
        },
    decreases b.len(),
{
    let one = seq![probe];
    assert(one.drop_last() =~= Seq::empty());
    assert(labels(one.drop_last()) =~= Seq::empty());
    if probe.id is Some && probe.description is None {
        let id = probe.id->0@;
        assert(id + " ("@ + Seq::<char>::empty() + ")"@ =~= id + " ("@ + ")"@);
        assert(labels(one) =~= seq![id + " ("@ + ")"@]);
    }
    if b.len() == 0 {
        assert(a + b =~= a);
        assert(labels(a + b) =~= labels(a) + labels(b));
    } else {
        every_identified_device_is_labelled(a, b.drop_last(), probe);
        assert((a + b).drop_last() =~= a + b.drop_last());
        assert(labels(a + b) =~= labels(a) + labels(b));
    }
}

/// There is no device with an identifier. The devices that there are get
/// listed; when they could not be enumerated, none is.
pub fn device_not_found(device: &str, inputs: Option<Vec<DeviceProbe>>) -> (r: AudioError)
    ensures
        r.says_invalid_config(
            "Device with ID '"@ + device@ + "' not found. Available: "@ + debug_text(
                match inputs {
                    Some(probes) => labels(probes@),
                    None => Seq::empty(),
                },
            ),
        ),
{
    let available = match inputs {
        Some(probes) => device_labels(&probes),
        None => Vec::new(),
    };
    assert(texts(available@) =~= (match inputs {
        Some(probes) => labels(probes@),
        None => Seq::empty(),
    }));
    let list = debug_list(&available);
    AudioError::InvalidConfig(
        concat4("Device with ID '", device, "' not found. Available: ", list.as_str()),
    )
}

} // verus!
