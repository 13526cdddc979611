//! Values that a device stores in its own memory.

use vstd::prelude::*;
use vstd::string::StrSliceExecFns;

use crate::ordered::copied;
use crate::text::{decimal, push_decimal};

verus! {

/// A pointer resolution, in dots per inch.
#[derive(Clone, Copy, Debug, PartialEq, Eq, PartialOrd, Ord, Hash, Structural)]
pub struct Dpi {
    /// The value on the wire.
    pub value: u16,
}

/// A resolution that does not fit the sixteen bits a device has for it.
#[derive(Clone, Copy, Debug, PartialEq, Eq, Structural)]
pub struct DpiRangeError {
    /// The value that does not fit.
    pub value: u32,
}

impl DpiRangeError {
    /// What went wrong, in words.
    pub fn message(&self) -> (text: String)
        ensures
            text@ == "DPI must fit the HID++ 16-bit range, got "@ + decimal(self.value as nat),
    {
        let mut text = "DPI must fit the HID++ 16-bit range, got ".to_owned();
        push_decimal(&mut text, self.value as u64);
        text
    }
}

impl Dpi {
    /// A resolution.
    pub fn new(value: u16) -> (dpi: Dpi)
        ensures
            dpi.value == value,
    {
        Dpi { value }
    }

    /// A resolution, where it fits.
    pub fn try_new(value: u32) -> (result: Result<Dpi, DpiRangeError>)
        ensures
            match result {
                Ok(dpi) => dpi.value == value,
                Err(error) => value > 0xffff && error.value == value,
            },
    {
        if value > 0xffff {
            Err(DpiRangeError { value })
        } else {
            Ok(Dpi { value: value as u16 })
        }
    }
}

/// Whether every value fits a resolution.
pub open spec fn all_fit(values: Seq<u32>) -> bool {
    forall|i: int| 0 <= i < values.len() ==> (#[trigger] values[i]) <= 0xffff
}

/// A list of resolutions read from a file; the first value that does not fit is
/// reported.
pub fn dpi_presets_from(values: &Vec<u32>) -> (result: Result<Vec<Dpi>, DpiRangeError>)
    ensures
        match result {
            Ok(presets) => {
                &&& all_fit(values@)
                &&& presets@.len() == values@.len()
                &&& forall|i: int|
                    0 <= i < values@.len() ==> (#[trigger] presets@[i]).value == values@[i]
            },
            Err(error) => exists|i: int|
                0 <= i < values@.len() && error.value == (#[trigger] values@[i]) && error.value
                    > 0xffff && all_fit(values@.take(i)),
        },
{
    let mut presets: Vec<Dpi> = Vec::new();
    let mut i: usize = 0;
    while i < values.len()
        invariant
            i <= values@.len(),
            presets@.len() == i,
            forall|j: int| 0 <= j < i ==> (#[trigger] presets@[j]).value == values@[j],
            forall|j: int| 0 <= j < i ==> (#[trigger] values@[j]) <= 0xffff,
        decreases values@.len() - i,
    {
        match Dpi::try_new(values[i]) {
            Ok(dpi) => {
                presets.push(dpi);
            },
            Err(error) => {
                assert(error.value == values@[i as int] && all_fit(values@.take(i as int)));
                return Err(error);
            },
        }
        i += 1;
    }
    Ok(presets)
}

/// A resolution read from a file, where there is one.
pub fn optional_dpi_from(value: Option<u32>) -> (result: Result<Option<Dpi>, DpiRangeError>)
    ensures
        match result {
            Ok(None) => value is None,
            Ok(Some(dpi)) => value == Some(dpi.value as u32),
            Err(error) => value == Some(error.value) && error.value > 0xffff,
        },
{
    match value {
        None => Ok(None),
        Some(value) => match Dpi::try_new(value) {
            Ok(dpi) => Ok(Some(dpi)),
            Err(error) => Err(error),
        },
    }
}

/// Whether the wheel turns freely or in notches.
#[derive(Clone, Copy, Debug, PartialEq, Eq, Hash, Structural)]
pub enum WheelMode {
    FreeSpin,
    Ratchet,
}

/// How fast the wheel must turn to leave its notches.
#[derive(Clone, Copy, Debug, PartialEq, Eq, Hash, Structural)]
pub struct SmartShiftThreshold {
    pub value: u8,
}

/// Whether the wheel leaves its notches by itself.
#[derive(Clone, Copy, Debug, PartialEq, Eq, Hash, Structural)]
pub enum SmartShiftAutoDisengage {
    /// Never.
    Never,
    /// Above a speed.
    Threshold(SmartShiftThreshold),
}

/// How hard the wheel turns, in percent.
#[derive(Clone, Copy, Debug, PartialEq, Eq, Hash, Structural)]
pub struct TunableTorque {
    pub value: u8,
}

/// A value outside the range of its kind.
#[derive(Clone, Copy, Debug, PartialEq, Eq, Structural)]
pub struct OutOfRange;

impl SmartShiftThreshold {
    /// A threshold; zero and the all-ones value have meanings of their own.
    pub fn try_new(value: u8) -> (result: Result<Self, OutOfRange>)
        ensures
            match result {
                Ok(threshold) => 1 <= value <= 254 && threshold.value == value,
                Err(_) => value == 0 || value == 255,
            },
    {
        if value == 0 || value == 255 {
            Err(OutOfRange)
        } else {
            Ok(SmartShiftThreshold { value })
        }
    }
}

impl TunableTorque {
    /// A torque from one to a hundred percent.
    pub fn try_new(value: u8) -> (result: Result<Self, OutOfRange>)
        ensures
            match result {
                Ok(torque) => 1 <= value <= 100 && torque.value == value,
                Err(_) => value < 1 || value > 100,
            },
    {
        if value < 1 || value > 100 {
            Err(OutOfRange)
        } else {
            Ok(TunableTorque { value })
        }
    }
}

/// The wheel's SmartShift settings.
#[derive(Clone, Copy, Debug, PartialEq, Eq, Hash, Structural)]
pub struct SmartShift {
    pub mode: WheelMode,
    pub auto_disengage: SmartShiftAutoDisengage,
    pub tunable_torque: Option<TunableTorque>,
}

/// How finely the wheel reports its turns.
#[derive(Clone, Copy, Debug, PartialEq, Eq, Hash, Structural)]
pub enum ScrollResolution {
    Low,
    High,
}

/// The resolutions a device takes, of which there is at least one.
#[derive(Debug, PartialEq, Eq)]
pub struct DpiCapabilities {
    values: Vec<u16>,
}

/// A device that takes no resolution.
#[derive(Clone, Copy, Debug, PartialEq, Eq, Structural)]
pub struct NoResolution;

/// How far one resolution is from another.
pub open spec fn dpi_distance(a: u16, b: u16) -> int {
    if a < b {
        b - a
    } else {
        a - b
    }
}

/// Whether the resolution at `i` is the first of those nearest to `wanted`.
pub open spec fn is_nearest(values: Seq<u16>, wanted: u16, i: int) -> bool {
    &&& 0 <= i < values.len()
    &&& forall|j: int|
        0 <= j < values.len() ==> dpi_distance(values[i], wanted) <= dpi_distance(
            #[trigger] values[j],
            wanted,
        )
    &&& forall|j: int|
        0 <= j < i ==> dpi_distance(values[i], wanted) < dpi_distance(
            #[trigger] values[j],
            wanted,
        )
}

impl View for DpiCapabilities {
    type V = Seq<u16>;

    closed spec fn view(&self) -> Seq<u16> {
        self.values@
    }
}

impl DpiCapabilities {
    #[verifier::type_invariant]
    spec fn wf(self) -> bool {
        self.values@.len() > 0
    }

    /// The resolutions a device takes.
    pub fn new(values: Vec<u16>) -> (result: Result<DpiCapabilities, NoResolution>)
        ensures
            match result {
                Ok(capabilities) => values@.len() > 0 && capabilities@ == values@,
                Err(_) => values@.len() == 0,
            },
    {
        if values.len() == 0 {
            Err(NoResolution)
        } else {
            Ok(DpiCapabilities { values })
        }
    }

    /// The resolutions, one after another.
    pub fn values(&self) -> (values: &Vec<u16>)
        ensures
            values@ == self@,
    {
        &self.values
    }

    /// The same resolutions once more.
    pub fn duplicate(&self) -> (copy: DpiCapabilities)
        ensures
            copy@ == self@,
    {
        proof {
            use_type_invariant(self);
        }
        DpiCapabilities { values: copied(&self.values) }
    }

    /// The resolution nearest to the one wanted, the first where several are.
    pub fn nearest(&self, wanted: Dpi) -> (dpi: Dpi)
        ensures
            exists|i: int| #[trigger] is_nearest(self@, wanted.value, i) && dpi.value == self@[i],
    {
        proof {
            use_type_invariant(self);
        }
        let mut best: usize = 0;
        let mut i: usize = 1;
        while i < self.values.len()
            invariant
                self@ == self.values@,
                best < i <= self.values@.len(),
                is_nearest(self@.take(i as int), wanted.value, best as int),
            decreases self.values@.len() - i,
        {
            let ghost seen = self@.take(i as int);
            let ghost more = self@.take(i + 1);
            if distance(self.values[i], wanted.value) < distance(self.values[best], wanted.value) {
                proof {
                    assert forall|j: int| 0 <= j < i implies dpi_distance(
                        more[i as int],
                        wanted.value,
                    ) < dpi_distance(#[trigger] more[j], wanted.value) by {
                        assert(seen[j] == more[j]);
                    }
                }
                best = i;
            } else {
                proof {
                    assert forall|j: int| 0 <= j < more.len() implies dpi_distance(
                        more[best as int],
                        wanted.value,
                    ) <= dpi_distance(#[trigger] more[j], wanted.value) by {
                        if j < i {
                            assert(seen[j] == more[j]);
                        }
                    }
                    assert forall|j: int| 0 <= j < best implies dpi_distance(
                        more[best as int],
                        wanted.value,
                    ) < dpi_distance(#[trigger] more[j], wanted.value) by {
                        assert(seen[j] == more[j]);
                    }
                }
            }
            i += 1;
        }
        proof {
            assert(self@.take(i as int) =~= self@);
            assert(is_nearest(self@, wanted.value, best as int));
        }
        Dpi { value: self.values[best] }
    }
}

fn distance(a: u16, b: u16) -> (distance: u16)
    ensures
        distance == dpi_distance(a, b),
{
    if a < b {
        b - a
    } else {
        a - b
    }
}

/// A resolution that is taken is the one nearest to itself.
pub proof fn law_a_taken_resolution_is_kept(values: Seq<u16>, wanted: u16, i: int)
    requires
        values.contains(wanted),
        is_nearest(values, wanted, i),
    ensures
        values[i] == wanted,
{
    let j = values.index_of(wanted);
    assert(dpi_distance(values[j], wanted) == 0);
}

/// The resolution that is set is one the device takes, and none it takes is
/// nearer to the one wanted.
pub proof fn law_the_nearest_resolution_is_set(values: Seq<u16>, wanted: u16, i: int, j: int)
    requires
        is_nearest(values, wanted, i),
        0 <= j < values.len(),
    ensures
        values.contains(values[i]),
        values[j] >= wanted && values[i] >= wanted ==> values[i] <= values[j],
        values[j] <= wanted && values[i] <= wanted ==> values[i] >= values[j],
        values[j] >= wanted && values[i] <= wanted ==> wanted - values[i] <= values[j] - wanted,
        values[j] <= wanted && values[i] >= wanted ==> values[i] - wanted <= wanted - values[j],
{
}

}
