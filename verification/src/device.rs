//! The thermal-probe device registry: a device handle is its discovery
//! location, and discovery selects the entries of a directory listing whose
//! names carry the family's fixed prefix.

use vstd::prelude::*;
use vstd::string::*;
use crate::reading::Reading;
use crate::sample::SampleError;
use crate::sample::has_integrity_marker;
use crate::sample::parse;
use crate::sample::sample_value;
use crate::sample::value_segment;
use crate::text::after_last_slash;
use crate::text::last_path_segment;
use crate::text::starts_with;
use crate::text::starts_with_seq;

verus! {

/// The fixed name prefix of the thermal-probe device family.
pub open spec fn device_prefix() -> Seq<char> {
    seq!['2', '8', '-']
}

/// A discovered thermal-probe device, identified by the location it was
/// found at; its name is the final segment of that location.
#[derive(Debug, Clone)]
pub struct DS18B20 {
    pub sysfs_path: String,
}

impl PartialEq for DS18B20 {
    fn eq(&self, other: &Self) -> bool {
        self.sysfs_path == other.sysfs_path
    }
}

impl vstd::std_specs::cmp::PartialEqSpecImpl for DS18B20 {
    open spec fn obeys_eq_spec() -> bool {
        true
    }

    open spec fn eq_spec(&self, other: &Self) -> bool {
        self.sysfs_path@ == other.sysfs_path@
    }
}

/// Why a device directory could not be listed. A missing directory is not a
/// failure; this error stands only for a directory that exists and could
/// not be read.
#[derive(Debug, Clone)]
pub struct DiscoveryError {
    pub message: String,
}

/// `base` and `name` joined with a single `'/'` between them.
pub open spec fn join_seq(base: Seq<char>, name: Seq<char>) -> Seq<char> {
    if base.len() == 0 {
        name
    } else if base[base.len() - 1] == '/' {
        base + name
    } else {
        base + seq!['/'] + name
    }
}

/// Joins a directory location and an entry name with a single `'/'`.
pub fn join_path(base: &str, name: &str) -> (r: String)
    ensures
        r@ == join_seq(base@, name@),
{
    let bl: usize = base.unicode_len();
    if bl == 0 {
        return String::from_str(name);
    }
    let mut out = String::from_str(base);
    if base.get_char(bl - 1) != '/' {
        out.append("/");
        proof {
            reveal_strlit("/");
            assert(base@ + "/"@ =~= base@ + seq!['/']);
        }
    }
    out.append(name);
    proof {
        assert(out@ =~= join_seq(base@, name@));
    }
    out
}

/// The locations of the devices discovered from the entry names of a
/// listing of `base`: one per name with the family prefix, in listing
/// order, each joined to `base`.
pub open spec fn discovered_paths(base: Seq<char>, names: Seq<Seq<char>>) -> Seq<Seq<char>> {
    names.filter(|nm: Seq<char>| starts_with_seq(nm, device_prefix())).map_values(
        |nm: Seq<char>| join_seq(base, nm),
    )
}

impl DS18B20 {
    /// The device's name: the final path segment of its discovery location.
    pub fn device_name(&self) -> (r: String)
        ensures
            r@ == after_last_slash(self.sysfs_path@),
    {
        String::from_str(last_path_segment(self.sysfs_path.as_str()))
    }

    /// Parses this device's raw report text into a thermal-probe reading
    /// carrying the device's name. Reading the report off the bus is the
    /// caller's work; the integrity gate and the value extraction happen
    /// here.
    pub fn read_report(&self, content: &str) -> (r: Result<Reading, SampleError>)
        ensures
            match r {
                Ok(reading) => (match reading {
                    Reading::DS18B20(d) => d.device_name@ == after_last_slash(self.sysfs_path@)
                        && has_integrity_marker(content@) && sample_value(content@) == Some(
                        d.raw_reading as int,
                    ),
                    Reading::BME280(_) => false,
                }),
                Err(e) => match e {
                    SampleError::Checksum => !has_integrity_marker(content@),
                    SampleError::MissingValue => has_integrity_marker(content@) && value_segment(
                        content@,
                    ) is None,
                    SampleError::InvalidValue => has_integrity_marker(content@) && value_segment(
                        content@,
                    ) is Some && sample_value(content@) is None,
                },
            },
    {
        let name = self.device_name();
        match parse(name.as_str(), content) {
            Ok(sample) => Ok(
                Reading::DS18B20(
                    crate::reading::DS18B20 {
                        device_name: sample.device_name,
                        raw_reading: sample.raw_milliunits,
                    },
                ),
            ),
            Err(e) => Err(e),
        }
    }

    /// Discovers the devices under `base_path` from a listing of its entry
    /// names, `None` standing for a `base_path` that does not exist.
    ///
    /// A missing directory yields no devices rather than an error; an entry
    /// becomes a device exactly when its name starts with the family
    /// prefix, and listing order is kept. Listing the directory is the
    /// caller's work, and only the caller can fail at it, so every call
    /// here succeeds.
    pub fn get_all(base_path: &str, entries: Option<Vec<String>>) -> (r: Result<
        Vec<DS18B20>,
        DiscoveryError,
    >)
        ensures
            r is Ok,
            match entries {
                None => r.unwrap()@.len() == 0,
                Some(names) => r.unwrap()@.map_values(|d: DS18B20| d.sysfs_path@)
                    == discovered_paths(base_path@, names@.map_values(|n: String| n@)),
            },
    {
        broadcast use vstd::seq_lib::group_filter_ensures;

        let mut devices: Vec<DS18B20> = Vec::new();
        match entries {
            None => Ok(devices),
            Some(names) => {
                proof {
                    reveal_strlit("28-");
                    assert("28-"@ =~= device_prefix());
                    assert(names@.subrange(0, 0) =~= Seq::<String>::empty());
                    assert(devices@.map_values(|d: DS18B20| d.sysfs_path@) =~= discovered_paths(
                        base_path@,
                        names@.subrange(0, 0).map_values(|n: String| n@),
                    ));
                }
                let mut k: usize = 0;
                while k < names.len()
                    invariant
                        0 <= k <= names.len(),
                        devices@.map_values(|d: DS18B20| d.sysfs_path@) == discovered_paths(
                            base_path@,
                            names@.subrange(0, k as int).map_values(|n: String| n@),
                        ),
                    decreases names.len() - k,
                {
                    proof {
                        reveal_strlit("28-");
                        assert("28-"@ =~= device_prefix());
                    }
                    let ghost pre = names@.subrange(0, k as int).map_values(|n: String| n@);
                    let ghost cur = names@[k as int]@;
                    proof {
                        assert(names@.subrange(0, k + 1).map_values(|n: String| n@) =~= pre.push(
                            cur,
                        ));
                    }
                    if starts_with(&names[k], "28-") {
                        let ghost before = devices@;
                        let path = join_path(base_path, names[k].as_str());
                        let d = DS18B20 { sysfs_path: path };
                        devices.push(d);
                        proof {
                            broadcast use Seq::lemma_filter_push;

                            assert(starts_with_seq(cur, device_prefix()));
                            assert(devices@ == before.push(d));
                            assert(devices@.map_values(|d: DS18B20| d.sysfs_path@)
                                =~= before.map_values(|d: DS18B20| d.sysfs_path@).push(
                                d.sysfs_path@,
                            ));
                            assert(discovered_paths(base_path@, pre.push(cur))
                                =~= discovered_paths(base_path@, pre).push(
                                join_seq(base_path@, cur),
                            ));
                            assert(devices@.map_values(|d: DS18B20| d.sysfs_path@)
                                =~= discovered_paths(base_path@, pre.push(cur)));
                        }
                    } else {
                        proof {
                            broadcast use Seq::lemma_filter_push;

                            assert(devices@.map_values(|d: DS18B20| d.sysfs_path@)
                                =~= discovered_paths(base_path@, pre.push(cur)));
                        }
                    }
                    k = k + 1;
                }
                proof {
                    assert(names@.subrange(0, names@.len() as int) =~= names@);
                }
                Ok(devices)
            },
        }
    }
}

/// Law: where an entry name holds no `'/'`, the name of the device
/// discovered from it is that entry name itself — the final path segment of
/// the joined location.
pub proof fn lemma_device_identity(base: Seq<char>, name: Seq<char>)
    requires
        forall|i: int| 0 <= i < name.len() ==> name[i] != '/',
    ensures
        after_last_slash(join_seq(base, name)) == name,
{
    if base.len() == 0 {
        lemma_after_last_slash_no_slash(name);
    } else if base[base.len() - 1] == '/' {
        lemma_after_last_slash_append(base, name);
    } else {
        let stem = base + seq!['/'];
        assert(stem[stem.len() - 1] == '/');
        lemma_after_last_slash_append(stem, name);
        assert(base + seq!['/'] + name =~= stem + name);
    }
}

proof fn lemma_after_last_slash_no_slash(s: Seq<char>)
    requires
        forall|i: int| 0 <= i < s.len() ==> s[i] != '/',
    ensures
        after_last_slash(s) == s,
    decreases s.len(),
{
    if s.len() > 0 {
        let rest = s.subrange(0, s.len() - 1);
        lemma_after_last_slash_no_slash(rest);
        assert(rest.push(s[s.len() - 1]) =~= s);
    }
}

proof fn lemma_after_last_slash_append(s: Seq<char>, t: Seq<char>)
    requires
        s.len() > 0,
        s[s.len() - 1] == '/',
        forall|i: int| 0 <= i < t.len() ==> t[i] != '/',
    ensures
        after_last_slash(s + t) == t,
    decreases t.len(),
{
    if t.len() == 0 {
        assert(s + t =~= s);
        assert(after_last_slash(s) =~= Seq::<char>::empty());
        assert(t =~= Seq::<char>::empty());
    } else {
        let u = s + t;
        let tr = t.subrange(0, t.len() - 1);
        lemma_after_last_slash_append(s, tr);
        assert(u[u.len() - 1] == t[t.len() - 1]);
        assert(u.subrange(0, u.len() - 1) =~= s + tr);
        assert(after_last_slash(u) == after_last_slash(s + tr).push(t[t.len() - 1]));
        assert(tr.push(t[t.len() - 1]) =~= t);
    }
}

} // verus!
