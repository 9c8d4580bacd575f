//! Persisted configuration: per-output mode overrides keyed by connector
//! name, border thickness, gap and colors, and the number of workspaces.
//!
//! A missing or malformed configuration is never fatal: everything falls
//! back to the defaults below.  Colors are written as `#RRGGBB`;
//! `hex_to_rgb` turns one into its three channels.

use vstd::prelude::*;
use vstd::string::StrSliceExecFns;

use indexmap::IndexMap;

use crate::geometry::MAX_EXTENT;

verus! {

/// The ordered map of the `indexmap` crate, as an opaque outside type:
/// its keys are unique and it keeps insertion order.
#[verifier::external_type_specification]
#[verifier::external_body]
#[verifier::reject_recursive_types(K)]
#[verifier::reject_recursive_types(V)]
#[verifier::reject_recursive_types(S)]
pub struct ExIndexMap<K, V, S>(IndexMap<K, V, S>);

/// What the per-output override map holds: its entries, in insertion
/// order, each a connector name and the override stored for it.
pub uninterp spec fn output_map_entries(m: IndexMap<String, OutputData>) -> Seq<
    (Seq<char>, OutputData),
>;

/// Relies on indexmap::IndexMap::new: a new map is empty.
#[verifier::external_body]
fn output_map_new() -> (r: IndexMap<String, OutputData>)
    ensures
        output_map_entries(r) == Seq::<(Seq<char>, OutputData)>::empty(),
{
    IndexMap::new()
}

/// Relies on indexmap::IndexMap::insert: an existing key keeps its place
/// in the order and takes the new value, and the old value comes back; a
/// new key is appended last and `None` comes back.
#[verifier::external_body]
fn output_map_insert(
    m: &mut IndexMap<String, OutputData>,
    key: String,
    value: OutputData,
) -> (old_value: Option<OutputData>)
    ensures
        ({
            let pre = output_map_entries(*old(m));
            let post = output_map_entries(*final(m));
            if exists|i: int| 0 <= i < pre.len() && (#[trigger] pre[i]).0 == key@ {
                let i = choose|i: int| 0 <= i < pre.len() && (#[trigger] pre[i]).0 == key@;
                post == pre.update(i, (key@, value)) && old_value == Some(pre[i].1)
            } else {
                post == pre.push((key@, value)) && old_value is None
            }
        }),
{
    m.insert(key, value)
}

/// Relies on indexmap::IndexMap::get: the value stored for the key, if
/// the key is present.
#[verifier::external_body]
fn output_map_get(m: &IndexMap<String, OutputData>, key: &String) -> (r: Option<OutputData>)
    ensures
        ({
            let es = output_map_entries(*m);
            match r {
                Some(v) => exists|i: int|
                    0 <= i < es.len() && (#[trigger] es[i]).0 == key@ && es[i].1 == v,
                None => forall|i: int| 0 <= i < es.len() ==> (#[trigger] es[i]).0 != key@,
            }
        }),
{
    m.get(key).copied()
}

/// Keyboard settings: the layout names to cycle through.
pub struct KeyboardConfig {
    pub layouts: Vec<String>,
}

/// Window border: thickness and gap in logical units, colors as `#RRGGBB`.
pub struct Border {
    pub thickness: i32,
    pub gap: i32,
    pub active: String,
    pub inactive: String,
}

/// Per-output override: resolution, refresh rate in Hz, scale in percent,
/// position in the workspace's screen space, and whether the output is
/// enabled at all.
#[derive(Clone, Copy, PartialEq, Eq, Debug)]
pub struct OutputData {
    pub resolution: (i32, i32),
    pub refresh_rate: i32,
    pub scale_percent: u32,
    pub possition: (i32, i32),
    pub enabled: bool,
}

/// The whole configuration.
pub struct Config {
    pub workspaces: u8,
    pub border: Border,
    pub keyboard: KeyboardConfig,
    pub outputs: IndexMap<String, OutputData>,
    pub autostart: Vec<String>,
}

impl Default for Config {
    /// The documented fallback: four workspaces, a two-unit border and
    /// gap, and one known output left at its advertised mode.
    fn default() -> (r: Config)
        ensures
            r.workspaces == 4,
            r.border.thickness == 2,
            r.border.gap == 2,
            r.border.active@ == "#8B4000"@,
            r.border.inactive@ == "#2A2A2A"@,
            r.keyboard.layouts@.len() == 1 && r.keyboard.layouts@[0]@ == "us"@,
            r.spec_outputs().len() == 1 && r.spec_outputs()[0].0 == "DP-1"@ && r.spec_outputs()[0].1
                == (OutputData {
                resolution: (2560, 1440),
                refresh_rate: 60,
                scale_percent: 100,
                possition: (0, 0),
                enabled: true,
            }),
            r.autostart@.len() == 0,
            r.wf(),
    {
        let border = Border {
            thickness: 2,
            gap: 2,
            active: "#8B4000".to_owned(),
            inactive: "#2A2A2A".to_owned(),
        };
        let mut layouts: Vec<String> = Vec::new();
        layouts.push("us".to_owned());
        let keyboard = KeyboardConfig { layouts };
        let mut outputs = output_map_new();
        output_map_insert(
            &mut outputs,
            "DP-1".to_owned(),
            OutputData {
                resolution: (2560, 1440),
                refresh_rate: 60,
                scale_percent: 100,
                possition: (0, 0),
                enabled: true,
            },
        );
        Config { workspaces: 4, border, keyboard, outputs, autostart: Vec::new() }
    }
}

/// Whether some entry carries this connector name.
pub open spec fn spec_has_output(outputs: Seq<(Seq<char>, OutputData)>, name: Seq<char>) -> bool {
    exists|i: int| 0 <= i < outputs.len() && (#[trigger] outputs[i]).0 == name
}

/// The override stored for this connector name; with the map's keys
/// unique there is at most one.
pub open spec fn spec_output_for(outputs: Seq<(Seq<char>, OutputData)>, name: Seq<char>) -> OutputData {
    outputs[choose|i: int| 0 <= i < outputs.len() && (#[trigger] outputs[i]).0 == name].1
}

impl Config {
    /// The entries of the per-output override map, in insertion order.
    pub open spec fn spec_outputs(self) -> Seq<(Seq<char>, OutputData)> {
        output_map_entries(self.outputs)
    }

    /// The override recorded for this connector name, if any.
    pub fn output_for(&self, name: &String) -> (r: Option<OutputData>)
        requires
            self.wf(),
        ensures
            match r {
                Some(d) => spec_has_output(self.spec_outputs(), name@) && d == spec_output_for(
                    self.spec_outputs(),
                    name@,
                ),
                None => !spec_has_output(self.spec_outputs(), name@),
            },
    {
        let r = output_map_get(&self.outputs, name);
        proof {
            let es = self.spec_outputs();
            match r {
                Some(d) => {
                    let i = choose|i: int|
                        0 <= i < es.len() && (#[trigger] es[i]).0 == name@ && es[i].1 == d;
                    let j = choose|i: int| 0 <= i < es.len() && (#[trigger] es[i]).0 == name@;
                    assert(0 <= i < es.len() && es[i].0 == name@ && es[i].1 == d);
                    assert(0 <= j < es.len() && es[j].0 == name@);
                    assert(i == j);
                },
                None => {},
            }
        }
        r
    }

    /// Record the override for a connector name: an existing entry keeps
    /// its place and takes the new data, a new name is appended last.
    pub fn set_output(&mut self, name: String, data: OutputData)
        requires
            old(self).wf(),
            0 <= data.refresh_rate <= 1000000,
            0 <= data.resolution.0 <= MAX_EXTENT,
            0 <= data.resolution.1 <= MAX_EXTENT,
            -MAX_EXTENT <= data.possition.0 <= MAX_EXTENT,
            -MAX_EXTENT <= data.possition.1 <= MAX_EXTENT,
        ensures
            final(self).wf(),
            final(self).workspaces == old(self).workspaces,
            final(self).border == old(self).border,
            final(self).keyboard == old(self).keyboard,
            final(self).autostart == old(self).autostart,
            spec_has_output(old(self).spec_outputs(), name@) ==> final(self).spec_outputs()
                == old(self).spec_outputs().update(
                choose|i: int|
                    0 <= i < old(self).spec_outputs().len() && (#[trigger] old(
                        self,
                    ).spec_outputs()[i]).0 == name@,
                (name@, data),
            ),
            !spec_has_output(old(self).spec_outputs(), name@) ==> final(self).spec_outputs()
                == old(self).spec_outputs().push((name@, data)),
    {
        output_map_insert(&mut self.outputs, name, data);
        proof {
            let pre = old(self).spec_outputs();
            let post = self.spec_outputs();
            if spec_has_output(pre, name@) {
                let i = choose|i: int| 0 <= i < pre.len() && (#[trigger] pre[i]).0 == name@;
                assert forall|p: int, q: int|
                    0 <= p < q < post.len() implies (#[trigger] post[p]).0 != (
                #[trigger] post[q]).0 by {
                    assert(pre[p].0 == post[p].0 || (p == i && post[p].0 == name@ && pre[p].0
                        == name@));
                    assert(pre[q].0 == post[q].0 || (q == i && post[q].0 == name@ && pre[q].0
                        == name@));
                }
            } else {
                let n = pre.len() as int;
                assert forall|p: int, q: int|
                    0 <= p < q < post.len() implies (#[trigger] post[p]).0 != (
                #[trigger] post[q]).0 by {
                    if q == n {
                        assert(post[p] == pre[p]);
                        if pre[p].0 == name@ {
                            assert(spec_has_output(pre, name@));
                        }
                    }
                }
            }
        }
    }

    /// A configuration the device registry can apply: connector names are
    /// unique — as the map keeps them — and every override's numbers fit
    /// the coordinate space and the refresh-rate arithmetic.
    pub open spec fn wf(self) -> bool {
        &&& forall|i: int, j: int|
            0 <= i < j < self.spec_outputs().len() ==> (#[trigger] self.spec_outputs()[i]).0 != (
            #[trigger] self.spec_outputs()[j]).0
        &&& forall|i: int|
            0 <= i < self.spec_outputs().len() ==> {
                let d = (#[trigger] self.spec_outputs()[i]).1;
                &&& 0 <= d.refresh_rate <= 1000000
                &&& 0 <= d.resolution.0 <= MAX_EXTENT
                &&& 0 <= d.resolution.1 <= MAX_EXTENT
                &&& -MAX_EXTENT <= d.possition.0 <= MAX_EXTENT
                &&& -MAX_EXTENT <= d.possition.1 <= MAX_EXTENT
            }
    }
}

/// What failed while reading a `#RRGGBB` color.
#[derive(Clone, Copy, PartialEq, Eq, Structural, Debug)]
pub enum HexColorError {
    WrongLength,
    InvalidDigit,
}

/// The value of one hexadecimal digit, or -1 where the character is none.
pub open spec fn hex_digit_value(c: char) -> int {
    let u = c as int;
    if 48 <= u <= 57 {
        u - 48
    } else if 97 <= u <= 102 {
        u - 87
    } else if 65 <= u <= 70 {
        u - 55
    } else {
        -1
    }
}

/// The byte two hexadecimal digits spell.
pub open spec fn spec_hex_pair(a: char, b: char) -> int {
    hex_digit_value(a) * 16 + hex_digit_value(b)
}

/// The text with every leading `#` removed.
pub open spec fn strip_hash(s: Seq<char>) -> Seq<char>
    decreases s.len(),
{
    if s.len() > 0 && s[0] == '#' {
        strip_hash(s.drop_first())
    } else {
        s
    }
}

/// Whether every character is a hexadecimal digit.
pub open spec fn all_hex(s: Seq<char>) -> bool {
    forall|i: int| 0 <= i < s.len() ==> hex_digit_value(#[trigger] s[i]) >= 0
}

/// The value of one hexadecimal digit character.
fn hex_digit(c: char) -> (r: Option<u8>)
    ensures
        match r {
            Some(v) => hex_digit_value(c) == v as int && v < 16,
            None => hex_digit_value(c) == -1,
        },
{
    let u = c as u32;
    if 48 <= u && u <= 57 {
        Some((u - 48) as u8)
    } else if 97 <= u && u <= 102 {
        Some((u - 87) as u8)
    } else if 65 <= u && u <= 70 {
        Some((u - 55) as u8)
    } else {
        None
    }
}

/// Read a `#RRGGBB` color into its three channels.  Leading `#` signs are
/// ignored; exactly six hexadecimal digits must remain, else the matching
/// error comes back.
pub fn hex_to_rgb(hex: &str) -> (r: Result<(u8, u8, u8), HexColorError>)
    ensures
        ({
            let t = strip_hash(hex@);
            match r {
                Ok(rgb) => t.len() == 6 && all_hex(t) && rgb.0 == spec_hex_pair(t[0], t[1])
                    && rgb.1 == spec_hex_pair(t[2], t[3]) && rgb.2 == spec_hex_pair(t[4], t[5]),
                Err(e) => match e {
                    HexColorError::WrongLength => t.len() != 6,
                    HexColorError::InvalidDigit => t.len() == 6 && !all_hex(t),
                },
            }
        }),
{
    let len = hex.unicode_len();
    let mut start: usize = 0;
    proof {
        assert(hex@.subrange(0, len as int) =~= hex@);
    }
    while start < len && hex.get_char(start) == '#'
        invariant
            0 <= start <= len,
            len == hex@.len(),
            strip_hash(hex@) == strip_hash(hex@.subrange(start as int, len as int)),
        decreases len - start,
    {
        proof {
            let cur = hex@.subrange(start as int, len as int);
            let next = hex@.subrange(start as int + 1, len as int);
            assert(cur[0] == '#');
            assert(cur.drop_first() =~= next);
        }
        start = start + 1;
    }
    let ghost t = strip_hash(hex@);
    proof {
        let cur = hex@.subrange(start as int, len as int);
        if start < len {
            assert(cur[0] != '#');
        }
        assert(t =~= cur);
    }
    if len - start != 6 {
        return Err(HexColorError::WrongLength);
    }
    let d0 = hex_digit(hex.get_char(start));
    let d1 = hex_digit(hex.get_char(start + 1));
    let d2 = hex_digit(hex.get_char(start + 2));
    let d3 = hex_digit(hex.get_char(start + 3));
    let d4 = hex_digit(hex.get_char(start + 4));
    let d5 = hex_digit(hex.get_char(start + 5));
    proof {
        assert forall|j: int| 0 <= j < 6 implies t[j] == hex@[start + j] by {}
    }
    match (d0, d1, d2, d3, d4, d5) {
        (Some(a), Some(b), Some(c), Some(d), Some(e), Some(f)) => {
            proof {
                assert forall|i: int| 0 <= i < t.len() implies hex_digit_value(
                    #[trigger] t[i],
                ) >= 0 by {
                    assert(t[i] == hex@[start + i]);
                }
            }
            Ok((a * 16 + b, c * 16 + d, e * 16 + f))
        },
        _ => {
            proof {
                assert(!all_hex(t)) by {
                    if all_hex(t) {
                        assert(hex_digit_value(t[0]) >= 0);
                        assert(hex_digit_value(t[1]) >= 0);
                        assert(hex_digit_value(t[2]) >= 0);
                        assert(hex_digit_value(t[3]) >= 0);
                        assert(hex_digit_value(t[4]) >= 0);
                        assert(hex_digit_value(t[5]) >= 0);
                    }
                }
            }
            Err(HexColorError::InvalidDigit)
        },
    }
}

} // verus!
