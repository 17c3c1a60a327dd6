//! Plugin system: registration and validation of a closed set of
//! extension capabilities.  Because the cross-boundary contract cannot
//! support late-bound dynamic loading, the plugin kinds are a closed sum
//! type rather than open trait objects; a registry instance maps plugin
//! IDs to instances and keeps a registration record per requested ID.

use vstd::prelude::*;
use crate::error::{CoreError, CoreResult, ErrorCode};
use crate::model::str_eq;

verus! {

/// How many of the first `n` characters are dots.
pub open spec fn spec_dot_count(s: Seq<char>, n: int) -> int
    decreases n,
{
    if n <= 0 {
        0
    } else {
        spec_dot_count(s, n - 1) + if s[n - 1] == '.' {
            1int
        } else {
            0int
        }
    }
}

/// Dot counts grow by at most one per character.
pub proof fn lemma_dot_count_mono(s: Seq<char>, i: int, j: int)
    requires
        0 <= i <= j,
    ensures
        spec_dot_count(s, i) <= spec_dot_count(s, j) <= spec_dot_count(s, i) + (j - i),
    decreases j - i,
{
    if i < j {
        lemma_dot_count_mono(s, i, j - 1);
    }
}

/// The positions of every dot in `s`, in order.  Position `k` holds the
/// `k`-th dot: the character there is a dot, exactly `k` dots precede it,
/// and every dot of `s` is listed.
fn dot_positions(s: &str) -> (dots: Vec<usize>)
    ensures
        dots@.len() == spec_dot_count(s@, s@.len() as int),
        forall|k: int|
            0 <= k < dots@.len() ==> (#[trigger] dots@[k]) < s@.len() && s@[dots@[k] as int] == '.'
                && spec_dot_count(s@, dots@[k] as int) == k,
        forall|j: int|
            0 <= j < s@.len() && s@[j] == '.' ==> #[trigger] spec_dot_count(s@, j) < dots@.len()
                && dots@[spec_dot_count(s@, j)] == j,
{
    let n = s.unicode_len();
    let mut dots: Vec<usize> = Vec::new();
    let mut i: usize = 0;
    while i < n
        invariant
            i <= n == s@.len(),
            dots@.len() == spec_dot_count(s@, i as int),
            forall|k: int|
                0 <= k < dots@.len() ==> (#[trigger] dots@[k]) < i && s@[dots@[k] as int] == '.'
                    && spec_dot_count(s@, dots@[k] as int) == k,
            forall|j: int|
                0 <= j < i && s@[j] == '.' ==> #[trigger] spec_dot_count(s@, j) < dots@.len()
                    && dots@[spec_dot_count(s@, j)] == j,
        decreases n - i,
    {
        let c = s.get_char(i);
        let ghost old_dots = dots@;
        if c == '.' {
            dots.push(i);
            proof {
                assert(dots@ =~= old_dots.push(i));
            }
        }
        proof {
            assert forall|j: int|
                0 <= j < i + 1 && s@[j] == '.' implies spec_dot_count(s@, j) < dots@.len()
                && dots@[spec_dot_count(s@, j)] == j by {
                if j < i {
                    let k = spec_dot_count(s@, j);
                    lemma_dot_count_mono(s@, 0, j);
                    assert(0 <= k < old_dots.len());
                    assert(old_dots[k] == j);
                    assert(dots@[k] == old_dots[k]);
                } else {
                    assert(j == i);
                    assert(spec_dot_count(s@, i as int) == old_dots.len());
                    assert(dots@ == old_dots.push(i));
                    assert(dots@[old_dots.len() as int] == i);
                }
            }
        }
        i = i + 1;
    }
    dots
}

/// Expected ID shapes, by the number of dot-separated parts: the plugin
/// type is part 0 of 2, part 1 of 3, part 2 of 4, or part 3 of 5 (e.g.
/// the type of `io.arrow.plugin.geo.v1` is `geo`).
///
/// The extracted type is a maximal dot-free segment of the ID, preceded
/// by exactly `parts - 2` dots.
pub fn extract_plugin_type(plugin_id: &str) -> (out: CoreResult<String>)
    ensures
        ({
            let s = plugin_id@;
            let nd = spec_dot_count(s, s.len() as int);
            match out {
                Ok(t) => {
                    &&& 1 <= nd <= 4
                    &&& exists|a: int, b: int|
                        spec_type_segment_at(s, a, b) && t@ == #[trigger] s.subrange(a, b)
                },
                Err(e) => (nd == 0 || nd > 4) && e.code == ErrorCode::Validation,
            }
        }),
{
    let n = plugin_id.unicode_len();
    let dots = dot_positions(plugin_id);
    let nd = dots.len();
    if nd == 0 || nd > 4 {
        return Err(CoreError::validation(
            String::from_str(
                "Invalid plugin ID format. Expected formats: 'type.version', 'domain.type.version', 'domain.plugin.type.version', or the full five-part form",
            ),
        ));
    }
    let segidx = nd - 1;
    let a: usize = if segidx == 0 {
        0
    } else {
        dots[segidx - 1] + 1
    };
    let b: usize = dots[segidx];
    proof {
        let s = plugin_id@;
        if segidx > 0 {
            assert(s[a - 1] == '.');
            assert(spec_dot_count(s, a as int) == spec_dot_count(s, a as int - 1) + 1);
        }
        assert(spec_dot_count(s, a as int) == segidx);
        assert(spec_dot_count(s, b as int) == segidx);
        assert(a <= b) by {
            if segidx > 0 && a > b {
                lemma_dot_count_mono(s, b as int, a as int - 1);
            }
        }
        assert forall|j: int| a <= j < b implies s[j] != '.' by {
            if s[j] == '.' {
                lemma_dot_count_mono(s, a as int, j);
                lemma_dot_count_mono(s, j, b as int);
                assert(spec_dot_count(s, j) == segidx);
                assert(dots@[segidx as int] == j);
            }
        }
    }
    let seg = plugin_id.substring_char(a, b);
    Ok(seg.to_owned())
}

/// A plugin type this build can instantiate directly.
pub open spec fn spec_geometry_type(t: Seq<char>) -> bool {
    t == "geo"@ || t == "geometry"@
}

/// A plugin type name this build recognizes.
pub open spec fn spec_known_plugin_type(t: Seq<char>) -> bool {
    t == "geo"@ || t == "geometry"@ || t == "demo"@ || t == "dummy"@
}

/// The canonical instance ID the factory for a type segment registers
/// under: the geometry plugin for the geometry types, the demo plugin
/// for everything else.
pub open spec fn spec_plugin_canonical(t: Seq<char>) -> Seq<char> {
    if spec_geometry_type(t) {
        "io.arrow.plugin.geo.v1"@
    } else {
        "io.arrow.plugin.dummy.v1"@
    }
}

/// The bounds of the type segment of a dotted ID: a maximal dot-free run
/// ending at a dot, preceded by exactly one dot fewer than the ID holds.
pub open spec fn spec_type_segment_at(s: Seq<char>, a: int, b: int) -> bool {
    let nd = spec_dot_count(s, s.len() as int);
    &&& 0 <= a <= b <= s.len()
    &&& (a == 0 || s[a - 1] == '.')
    &&& b < s.len() && s[b] == '.'
    &&& spec_dot_count(s, a) == nd - 1
    &&& forall|j: int| a <= j < b ==> s[j] != '.'
}

/// A dot-free stretch leaves the dot count unchanged.
pub proof fn lemma_dot_count_flat(s: Seq<char>, i: int, j: int)
    requires
        0 <= i <= j,
        forall|k: int| i <= k < j ==> s[k] != '.',
    ensures
        spec_dot_count(s, i) == spec_dot_count(s, j),
    decreases j - i,
{
    if i < j {
        lemma_dot_count_flat(s, i, j - 1);
    }
}

/// The type segment's bounds are unique.
pub proof fn lemma_type_segment_unique(s: Seq<char>, a1: int, b1: int, a2: int, b2: int)
    requires
        spec_type_segment_at(s, a1, b1),
        spec_type_segment_at(s, a2, b2),
    ensures
        a1 == a2,
        b1 == b2,
{
    let nd = spec_dot_count(s, s.len() as int);
    lemma_dot_count_flat(s, a1, b1);
    lemma_dot_count_flat(s, a2, b2);
    assert(b1 == b2) by {
        if b1 < b2 {
            assert(spec_dot_count(s, b1 + 1) == spec_dot_count(s, b1) + 1);
            lemma_dot_count_mono(s, b1 + 1, b2);
        }
        if b2 < b1 {
            assert(spec_dot_count(s, b2 + 1) == spec_dot_count(s, b2) + 1);
            lemma_dot_count_mono(s, b2 + 1, b1);
        }
    }
    assert(a1 == a2) by {
        if a1 < a2 {
            assert(s[a2 - 1] == '.');
            assert(a1 <= a2 - 1 < b1);
        }
        if a2 < a1 {
            assert(s[a1 - 1] == '.');
            assert(a2 <= a1 - 1 < b2);
        }
    }
}

/// Metadata describing one plugin registration.
#[derive(Debug, Clone)]
pub struct PluginMetadata {
    pub id: String,
    pub name: String,
    pub version: String,
    pub description: String,
}

/// Geometry plugin: validates geometry columns encoded as large binary
/// with well-known metadata, and well-known-binary payloads.
#[derive(Debug, Clone, Copy)]
pub struct GeometryPlugin;

/// Demo plugin used for testing registration; it accepts everything and
/// does nothing.
#[derive(Debug, Clone)]
pub struct DummyPlugin {
    pub id: String,
    pub name: String,
    pub version: String,
}

impl DummyPlugin {
    pub fn new(plugin_id: &str) -> (r: DummyPlugin)
        ensures
            r.id@ == plugin_id@,
    {
        let mut name = String::from_str("Dummy Plugin (");
        name.append(plugin_id);
        name.append(")");
        DummyPlugin { id: plugin_id.to_owned(), name, version: String::from_str("0.1.0") }
    }
}

/// A registered plugin instance of one of the closed kinds.
#[derive(Debug, Clone)]
pub enum PluginInstance {
    Geometry(GeometryPlugin),
    Demo(DummyPlugin),
}

impl PluginInstance {
    /// The stable canonical ID the instance registers under.
    pub open spec fn spec_plugin_id(&self) -> Seq<char> {
        match self {
            PluginInstance::Geometry(_) => "io.arrow.plugin.geo.v1"@,
            PluginInstance::Demo(_) => "io.arrow.plugin.dummy.v1"@,
        }
    }

    pub fn plugin_id(&self) -> (r: String)
        ensures
            r@ == self.spec_plugin_id(),
    {
        match self {
            PluginInstance::Geometry(_) => String::from_str("io.arrow.plugin.geo.v1"),
            PluginInstance::Demo(_) => String::from_str("io.arrow.plugin.dummy.v1"),
        }
    }

    /// The display name the instance reports.
    pub open spec fn spec_plugin_name(&self) -> Seq<char> {
        match self {
            PluginInstance::Geometry(_) => "Geometry Plugin"@,
            PluginInstance::Demo(_) => "Dummy Plugin"@,
        }
    }

    /// The version the instance reports.
    pub open spec fn spec_plugin_version(&self) -> Seq<char> {
        match self {
            PluginInstance::Geometry(_) => "1.0.0"@,
            PluginInstance::Demo(_) => "0.1.0"@,
        }
    }

    pub fn plugin_name(&self) -> (r: String)
        ensures
            r@ == self.spec_plugin_name(),
    {
        match self {
            PluginInstance::Geometry(_) => String::from_str("Geometry Plugin"),
            PluginInstance::Demo(_) => String::from_str("Dummy Plugin"),
        }
    }

    pub fn plugin_version(&self) -> (r: String)
        ensures
            r@ == self.spec_plugin_version(),
    {
        match self {
            PluginInstance::Geometry(_) => String::from_str("1.0.0"),
            PluginInstance::Demo(_) => String::from_str("0.1.0"),
        }
    }
}

/// Factory producing geometry plugin instances.
#[derive(Debug, Clone, Copy)]
pub struct GeometryPluginFactory;

impl GeometryPluginFactory {
    pub fn create_plugin(&self, plugin_id: &str) -> (r: PluginInstance)
        ensures
            r is Geometry,
    {
        PluginInstance::Geometry(GeometryPlugin::new_with_id(plugin_id))
    }

    pub fn plugin_type(&self) -> (r: String)
        ensures
            r@ == "geo"@,
    {
        String::from_str("geo")
    }
}

/// Factory producing demo plugin instances; it also serves as the
/// fallback for otherwise well-formed IDs of no specific kind.
#[derive(Debug, Clone, Copy)]
pub struct DemoPluginFactory;

impl DemoPluginFactory {
    pub fn create_plugin(&self, plugin_id: &str) -> (r: PluginInstance)
        ensures
            r is Demo,
    {
        PluginInstance::Demo(DummyPlugin::new(plugin_id))
    }

    pub fn plugin_type(&self) -> (r: String)
        ensures
            r@ == "demo"@,
    {
        String::from_str("demo")
    }
}

/// Whether an association list holds `key`.
pub open spec fn spec_assoc_has<V>(pairs: Seq<(String, V)>, key: Seq<char>) -> bool {
    exists|i: int| 0 <= i < pairs.len() && (#[trigger] pairs[i]).0@ == key
}

/// First value stored under `key`.
fn assoc_find<'a, V>(pairs: &'a Vec<(String, V)>, key: &str) -> (r: Option<&'a V>)
    ensures
        match r {
            Some(v) => exists|i: int|
                0 <= i < pairs@.len() && (#[trigger] pairs@[i]).0@ == key@ && pairs@[i].1 == *v,
            None => !spec_assoc_has(pairs@, key@),
        },
{
    let n = pairs.len();
    let mut i: usize = 0;
    while i < n
        invariant
            i <= n == pairs@.len(),
            forall|j: int| 0 <= j < i ==> (#[trigger] pairs@[j]).0@ != key@,
        decreases n - i,
    {
        if str_eq(pairs[i].0.as_str(), key) {
            return Some(&pairs[i].1);
        }
        i = i + 1;
    }
    None
}

/// Registry of plugins: instances keyed by their canonical plugin ID,
/// and one registration record per requested ID.
#[derive(Debug)]
pub struct PluginRegistry {
    pub plugins: Vec<(String, PluginInstance)>,
    pub metadata: Vec<(String, PluginMetadata)>,
}

impl PluginRegistry {
    /// Registry invariant: every instance is stored under its own
    /// canonical ID.
    pub open spec fn wf(&self) -> bool {
        forall|i: int|
            0 <= i < self.plugins@.len() ==> (#[trigger] self.plugins@[i]).0@
                == self.plugins@[i].1.spec_plugin_id()
    }

    pub fn new() -> (r: PluginRegistry)
        ensures
            r.wf(),
            r.plugins@.len() == 0,
            r.metadata@.len() == 0,
    {
        PluginRegistry { plugins: Vec::new(), metadata: Vec::new() }
    }

    /// Whether a plugin instance is registered under `plugin_id`.
    pub fn is_registered(&self, plugin_id: &str) -> (r: bool)
        ensures
            r == spec_assoc_has(self.plugins@, plugin_id@),
    {
        match assoc_find(&self.plugins, plugin_id) {
            Some(_) => true,
            None => false,
        }
    }
}

/// Register a plugin instance under its own canonical ID, with a matching
/// registration record; an ID already taken is rejected.
pub fn register_plugin_instance(reg: &mut PluginRegistry, plugin: PluginInstance) -> (out:
    CoreResult<()>)
    requires
        old(reg).wf(),
    ensures
        final(reg).wf(),
        out is Ok <==> !spec_assoc_has(old(reg).plugins@, plugin.spec_plugin_id()),
        match out {
            Ok(_) => {
                &&& spec_assoc_has(final(reg).plugins@, plugin.spec_plugin_id())
                &&& final(reg).plugins@.len() == old(reg).plugins@.len() + 1
                &&& final(reg).metadata@.len() == old(reg).metadata@.len() + 1
                &&& final(reg).metadata@[old(reg).metadata@.len() as int].0@
                    == plugin.spec_plugin_id()
                &&& final(reg).metadata@[old(reg).metadata@.len() as int].1.id@
                    == plugin.spec_plugin_id()
                &&& final(reg).metadata@[old(reg).metadata@.len() as int].1.name@
                    == plugin.spec_plugin_name()
                &&& final(reg).metadata@[old(reg).metadata@.len() as int].1.version@
                    == plugin.spec_plugin_version()
            },
            Err(e) => {
                &&& *final(reg) == *old(reg)
                &&& e.code == ErrorCode::Validation
            },
        },
        forall|k: Seq<char>|
            #[trigger] spec_assoc_has(final(reg).plugins@, k) == (spec_assoc_has(
                old(reg).plugins@,
                k,
            ) || (out is Ok && k == plugin.spec_plugin_id())),
{
    let id = plugin.plugin_id();
    if reg.is_registered(id.as_str()) {
        let mut msg = String::from_str("Plugin already registered: ");
        msg.append(id.as_str());
        return Err(CoreError::validation(msg));
    }
    let meta = build_metadata(id.as_str(), &plugin);
    let ghost oldp = reg.plugins@;
    reg.metadata.push((id.clone(), meta));
    reg.plugins.push((id, plugin));
    proof {
        assert(reg.plugins@[oldp.len() as int].0@ == plugin.spec_plugin_id());
        assert forall|i: int| 0 <= i < reg.plugins@.len() implies (#[trigger] reg.plugins@[i]).0@
            == reg.plugins@[i].1.spec_plugin_id() by {
            if i < oldp.len() {
                assert(reg.plugins@[i] == oldp[i]);
            }
        }
        assert forall|k: Seq<char>| #[trigger]
            spec_assoc_has(reg.plugins@, k) == (spec_assoc_has(oldp, k) || k
                == plugin.spec_plugin_id()) by {
            if spec_assoc_has(reg.plugins@, k) {
                let i = choose|i: int|
                    0 <= i < reg.plugins@.len() && (#[trigger] reg.plugins@[i]).0@ == k;
                if i < oldp.len() {
                    assert(oldp[i].0@ == k);
                }
            }
            if spec_assoc_has(oldp, k) {
                let i = choose|i: int| 0 <= i < oldp.len() && (#[trigger] oldp[i]).0@ == k;
                assert(reg.plugins@[i].0@ == k);
            }
        }
    }
    Ok(())
}

/// The registration record for a plugin instance.
fn build_metadata(id: &str, plugin: &PluginInstance) -> (m: PluginMetadata)
    ensures
        m.id@ == id@,
        m.name@ == plugin.spec_plugin_name(),
        m.version@ == plugin.spec_plugin_version(),
        m.description@ == "Plugin: "@ + plugin.spec_plugin_name(),
{
    let name = plugin.plugin_name();
    let mut description = String::from_str("Plugin: ");
    description.append(name.as_str());
    PluginMetadata { id: id.to_owned(), name, version: plugin.plugin_version(), description }
}

/// Register a plugin by its requested ID.  The ID must be non-empty and
/// dotted; its type segment picks the factory (geometry for the geometry
/// types, the demo factory for every other well-formed ID).  The instance
/// is stored under its canonical ID, shared by aliases; the registration
/// record is stored under the requested ID, which must be new.
pub fn register_plugin(reg: &mut PluginRegistry, plugin_id: &str) -> (out: CoreResult<()>)
    requires
        old(reg).wf(),
    ensures
        final(reg).wf(),
        out is Ok <==> (plugin_id@.len() > 0 && 1 <= spec_dot_count(
            plugin_id@,
            plugin_id@.len() as int,
        ) <= 4 && !spec_assoc_has(old(reg).metadata@, plugin_id@)),
        out is Ok ==> spec_assoc_has(final(reg).metadata@, plugin_id@),
        out is Ok ==> exists|a: int, b: int|
            spec_type_segment_at(plugin_id@, a, b) && spec_assoc_has(
                final(reg).plugins@,
                spec_plugin_canonical(#[trigger] plugin_id@.subrange(a, b)),
            ),
        forall|k: Seq<char>|
            #[trigger] spec_assoc_has(old(reg).plugins@, k) ==> spec_assoc_has(
                final(reg).plugins@,
                k,
            ),
        out is Err ==> *final(reg) == *old(reg),
{
    if plugin_id.unicode_len() == 0 {
        return Err(CoreError::validation(String::from_str("Plugin ID cannot be empty")));
    }
    let dots = dot_positions(plugin_id);
    if dots.len() == 0 {
        return Err(CoreError::validation(
            String::from_str("Plugin ID should follow format 'domain.plugin.name.version'"),
        ));
    }
    match assoc_find(&reg.metadata, plugin_id) {
        Some(_) => {
            let mut msg = String::from_str("Plugin '");
            msg.append(plugin_id);
            msg.append("' is already registered");
            return Err(CoreError::validation(msg));
        },
        None => {},
    }
    create_and_register_plugin(reg, plugin_id)
}

/// Create the plugin an ID asks for through the factory its type segment
/// picks, register the instance under its canonical ID if it is not held
/// yet, and record the registration under the requested ID.
pub fn create_and_register_plugin(reg: &mut PluginRegistry, plugin_id: &str) -> (out: CoreResult<
    (),
>)
    requires
        old(reg).wf(),
    ensures
        final(reg).wf(),
        out is Ok <==> 1 <= spec_dot_count(plugin_id@, plugin_id@.len() as int) <= 4,
        out is Ok ==> spec_assoc_has(final(reg).metadata@, plugin_id@),
        out is Ok ==> exists|a: int, b: int|
            spec_type_segment_at(plugin_id@, a, b) && spec_assoc_has(
                final(reg).plugins@,
                spec_plugin_canonical(#[trigger] plugin_id@.subrange(a, b)),
            ),
        forall|k: Seq<char>|
            #[trigger] spec_assoc_has(old(reg).plugins@, k) ==> spec_assoc_has(
                final(reg).plugins@,
                k,
            ),
        out is Err ==> *final(reg) == *old(reg),
{
    let plugin_type = match extract_plugin_type(plugin_id) {
        Ok(t) => t,
        Err(e) => {
            return Err(e);
        },
    };
    let ghost seg = plugin_type@;
    let plugin = if str_eq(plugin_type.as_str(), "geo") || str_eq(plugin_type.as_str(), "geometry") {
        GeometryPluginFactory.create_plugin(plugin_id)
    } else {
        DemoPluginFactory.create_plugin(plugin_id)
    };
    proof {
        assert(plugin.spec_plugin_id() == spec_plugin_canonical(seg));
    }
    let canonical = plugin.plugin_id();
    let meta = build_metadata(plugin_id, &plugin);
    let ghost oldp = reg.plugins@;
    let ghost stored = plugin;
    if !reg.is_registered(canonical.as_str()) {
        reg.plugins.push((canonical, plugin));
        proof {
            assert(reg.plugins@[oldp.len() as int].0@ == stored.spec_plugin_id());
            assert forall|i: int| 0 <= i < reg.plugins@.len() implies (
            #[trigger] reg.plugins@[i]).0@ == reg.plugins@[i].1.spec_plugin_id() by {
                if i < oldp.len() {
                    assert(reg.plugins@[i] == oldp[i]);
                }
            }
            assert forall|k: Seq<char>| #[trigger]
                spec_assoc_has(oldp, k) implies spec_assoc_has(reg.plugins@, k) by {
                let i = choose|i: int| 0 <= i < oldp.len() && (#[trigger] oldp[i]).0@ == k;
                assert(reg.plugins@[i].0@ == k);
            }
        }
    }
    proof {
        assert(spec_assoc_has(reg.plugins@, spec_plugin_canonical(seg)));
        let (a0, b0) = choose|a: int, b: int|
            spec_type_segment_at(plugin_id@, a, b) && seg == #[trigger] plugin_id@.subrange(a, b);
        assert(spec_type_segment_at(plugin_id@, a0, b0) && spec_assoc_has(
            reg.plugins@,
            spec_plugin_canonical(plugin_id@.subrange(a0, b0)),
        ));
    }
    reg.metadata.push((plugin_id.to_owned(), meta));
    proof {
        assert(reg.metadata@[reg.metadata@.len() - 1].0@ == plugin_id@);
    }
    Ok(())
}

/// The plugin types that can be instantiated, aliases included.
pub fn get_available_plugin_types() -> (out: CoreResult<Vec<String>>)
    ensures
        match out {
            Ok(v) => v@.len() == 4 && v@[0]@ == "geo"@ && v@[1]@ == "geometry"@ && v@[2]@
                == "demo"@ && v@[3]@ == "dummy"@,
            Err(_) => false,
        },
{
    let mut v: Vec<String> = Vec::new();
    v.push(String::from_str("geo"));
    v.push(String::from_str("geometry"));
    v.push(String::from_str("demo"));
    v.push(String::from_str("dummy"));
    Ok(v)
}

/// Well-known plugin IDs that could be registered with this build.
pub fn discover_available_plugins() -> (out: CoreResult<Vec<String>>)
    ensures
        match out {
            Ok(v) => v@.len() == 4 && v@[0]@ == "io.arrow.plugin.geo.v1"@ && v@[1]@ == "geometry"@
                && v@[2]@ == "io.arrow.plugin.demo.v1"@ && v@[3]@ == "demo"@,
            Err(_) => false,
        },
{
    let mut v: Vec<String> = Vec::new();
    v.push(String::from_str("io.arrow.plugin.geo.v1"));
    v.push(String::from_str("geometry"));
    v.push(String::from_str("io.arrow.plugin.demo.v1"));
    v.push(String::from_str("demo"));
    Ok(v)
}

/// Check an ID's format and that its type segment is one this build can
/// instantiate directly, returning the type segment: the check succeeds
/// exactly when the ID has a type segment and that segment names a known
/// plugin type.
pub fn validate_plugin_id_format(plugin_id: &str) -> (out: CoreResult<String>)
    ensures
        ({
            let s = plugin_id@;
            let nd = spec_dot_count(s, s.len() as int);
            &&& (out is Ok <==> (1 <= nd <= 4 && exists|a: int, b: int|
                spec_type_segment_at(s, a, b) && spec_known_plugin_type(
                    #[trigger] s.subrange(a, b),
                )))
            &&& (out matches Ok(t) ==> spec_known_plugin_type(t@) && exists|a: int, b: int|
                spec_type_segment_at(s, a, b) && t@ == #[trigger] s.subrange(a, b))
            &&& (out matches Err(e) ==> e.code == ErrorCode::Validation)
        }),
{
    let plugin_type = match extract_plugin_type(plugin_id) {
        Ok(t) => t,
        Err(e) => {
            return Err(e);
        },
    };
    let known = str_eq(plugin_type.as_str(), "geo") || str_eq(plugin_type.as_str(), "geometry")
        || str_eq(plugin_type.as_str(), "demo") || str_eq(plugin_type.as_str(), "dummy");
    proof {
        let s = plugin_id@;
        let (a0, b0) = choose|a: int, b: int|
            spec_type_segment_at(s, a, b) && plugin_type@ == #[trigger] s.subrange(a, b);
        if !known {
            assert forall|a: int, b: int|
                spec_type_segment_at(s, a, b) implies !spec_known_plugin_type(
                #[trigger] s.subrange(a, b),
            ) by {
                lemma_type_segment_unique(s, a, b, a0, b0);
            }
        }
    }
    if !known {
        let mut msg = String::from_str("Plugin type '");
        msg.append(plugin_type.as_str());
        msg.append("' is not available. Available types: geo, geometry, demo, dummy");
        return Err(CoreError::validation(msg));
    }
    Ok(plugin_type)
}

/// Confirm that a plugin instance is registered under `plugin_id`.
pub fn validate_plugin(reg: &PluginRegistry, plugin_id: &str) -> (out: CoreResult<()>)
    ensures
        out is Ok <==> spec_assoc_has(reg.plugins@, plugin_id@),
        out is Err ==> (out matches Err(e) && e.code == ErrorCode::Validation),
{
    if reg.is_registered(plugin_id) {
        Ok(())
    } else {
        let mut msg = String::from_str("Plugin not found: ");
        msg.append(plugin_id);
        Err(CoreError::validation(msg))
    }
}

/// The registration records of every registered plugin.
pub fn get_plugin_info(reg: &PluginRegistry) -> (out: CoreResult<Vec<PluginMetadata>>)
    ensures
        match out {
            Ok(v) => v@.len() == reg.metadata@.len() && forall|i: int|
                0 <= i < v@.len() ==> (#[trigger] v@[i]).id@ == reg.metadata@[i].1.id@,
            Err(_) => false,
        },
{
    let n = reg.metadata.len();
    let mut v: Vec<PluginMetadata> = Vec::new();
    let mut i: usize = 0;
    while i < n
        invariant
            i <= n == reg.metadata@.len(),
            v@.len() == i,
            forall|j: int| 0 <= j < i ==> (#[trigger] v@[j]).id@ == reg.metadata@[j].1.id@,
        decreases n - i,
    {
        let m = duplicate_metadata(&reg.metadata[i].1);
        v.push(m);
        i = i + 1;
    }
    Ok(v)
}

fn duplicate_metadata(m: &PluginMetadata) -> (r: PluginMetadata)
    ensures
        r.id@ == m.id@,
        r.name@ == m.name@,
        r.version@ == m.version@,
        r.description@ == m.description@,
{
    PluginMetadata {
        id: m.id.clone(),
        name: m.name.clone(),
        version: m.version.clone(),
        description: m.description.clone(),
    }
}

/// The registration record under `plugin_id`: a copy of the stored
/// record when one exists; for a canonical ID that was only registered
/// through an alias, a record synthesized from the instance itself, with
/// the instance's own ID, name and version.
pub fn get_plugin_metadata(reg: &PluginRegistry, plugin_id: &str) -> (out: CoreResult<
    PluginMetadata,
>)
    requires
        reg.wf(),
    ensures
        match out {
            Ok(m) => {
                ||| exists|i: int|
                    0 <= i < reg.metadata@.len() && (#[trigger] reg.metadata@[i]).0@ == plugin_id@
                        && m.id@ == reg.metadata@[i].1.id@ && m.name@ == reg.metadata@[i].1.name@
                        && m.version@ == reg.metadata@[i].1.version@ && m.description@
                        == reg.metadata@[i].1.description@
                ||| (!spec_assoc_has(reg.metadata@, plugin_id@) && m.id@ == plugin_id@ && exists|
                    i: int,
                |
                    0 <= i < reg.plugins@.len() && (#[trigger] reg.plugins@[i]).0@ == plugin_id@
                        && m.name@ == reg.plugins@[i].1.spec_plugin_name() && m.version@
                        == reg.plugins@[i].1.spec_plugin_version())
            },
            Err(e) => !spec_assoc_has(reg.metadata@, plugin_id@) && !spec_assoc_has(
                reg.plugins@,
                plugin_id@,
            ) && e.code == ErrorCode::Validation,
        },
{
    match assoc_find(&reg.metadata, plugin_id) {
        Some(m) => {
            return Ok(duplicate_metadata(m));
        },
        None => {},
    }
    match assoc_find(&reg.plugins, plugin_id) {
        Some(p) => {
            let id = p.plugin_id();
            proof {
                let i = choose|i: int|
                    0 <= i < reg.plugins@.len() && (#[trigger] reg.plugins@[i]).0@ == plugin_id@
                        && reg.plugins@[i].1 == *p;
                assert(reg.plugins@[i].0@ == reg.plugins@[i].1.spec_plugin_id());
                assert(p.spec_plugin_id() == plugin_id@);
            }
            Ok(build_metadata(id.as_str(), p))
        },
        None => {
            let mut msg = String::from_str("Plugin not found: ");
            msg.append(plugin_id);
            Err(CoreError::validation(msg))
        },
    }
}

/// Drop every plugin and registration record.
pub fn clear_all_plugins(reg: &mut PluginRegistry)
    ensures
        final(reg).wf(),
        final(reg).plugins@.len() == 0,
        final(reg).metadata@.len() == 0,
{
    reg.plugins.clear();
    reg.metadata.clear();
}

/// Information parsed from a well-known-binary geometry header.
#[derive(Debug, Clone)]
pub struct GeometryInfo {
    pub geometry_type: String,
    pub dimension: u8,
    pub srid: Option<u32>,
}

/// Little-endian 32-bit read at offset `i`.
pub open spec fn spec_wkb_le32(d: Seq<u8>, i: int) -> int {
    d[i] + d[i + 1] * 0x100 + d[i + 2] * 0x10000 + d[i + 3] * 0x1000000
}

/// Big-endian 32-bit read at offset `i`.
pub open spec fn spec_wkb_be32(d: Seq<u8>, i: int) -> int {
    d[i] * 0x1000000 + d[i + 1] * 0x10000 + d[i + 2] * 0x100 + d[i + 3]
}

/// The geometry type code of a well-known-binary header: the 32-bit word
/// after the byte-order byte, read in the order that byte declares.
pub open spec fn spec_wkb_type_code(d: Seq<u8>) -> int {
    if d[0] == 1u8 {
        spec_wkb_le32(d, 1)
    } else {
        spec_wkb_be32(d, 1)
    }
}

/// The name of a geometry type code's low byte.
pub open spec fn spec_geom_name(code: int) -> Seq<char> {
    let low = code % 256;
    if low == 1 {
        "Point"@
    } else if low == 2 {
        "LineString"@
    } else if low == 3 {
        "Polygon"@
    } else if low == 4 {
        "MultiPoint"@
    } else if low == 5 {
        "MultiLineString"@
    } else if low == 6 {
        "MultiPolygon"@
    } else if low == 7 {
        "GeometryCollection"@
    } else {
        "Unknown"@
    }
}

impl GeometryPlugin {
    pub fn new() -> (r: GeometryPlugin) {
        GeometryPlugin
    }

    /// Instances are not yet configured per ID; every ID yields the same
    /// plugin.
    pub fn new_with_id(_plugin_id: &str) -> (r: GeometryPlugin) {
        GeometryPlugin
    }

    /// Parse and validate a well-known-binary geometry header: at least 9
    /// bytes, a byte-order byte of 0 (big-endian) or 1 (little-endian),
    /// then the 32-bit geometry type code whose low byte names the type
    /// and whose top bit marks a 3-dimensional geometry.
    pub fn validate_wkb_data(data: &[u8]) -> (out: CoreResult<GeometryInfo>)
        ensures
            match out {
                Ok(g) => {
                    &&& data@.len() >= 9
                    &&& (data@[0] == 0u8 || data@[0] == 1u8)
                    &&& g.geometry_type@ == spec_geom_name(spec_wkb_type_code(data@))
                    &&& g.dimension == (if spec_wkb_type_code(data@) >= 0x80000000 {
                        3u8
                    } else {
                        2u8
                    })
                    &&& g.srid is None
                },
                Err(e) => (data@.len() < 9 || !(data@[0] == 0u8 || data@[0] == 1u8)) && e.code
                    == ErrorCode::Validation,
            },
    {
        if data.len() < 9 {
            return Err(CoreError::validation(String::from_str("Invalid WKB: too short")));
        }
        let byte_order = data[0];
        if byte_order != 1 && byte_order != 0 {
            return Err(CoreError::validation(String::from_str("Invalid WKB: bad byte order")));
        }
        let geom_type: u64 = if byte_order == 1 {
            (data[1] as u64) + (data[2] as u64) * 0x100 + (data[3] as u64) * 0x10000 + (
            data[4] as u64) * 0x1000000
        } else {
            (data[1] as u64) * 0x1000000 + (data[2] as u64) * 0x10000 + (data[3] as u64) * 0x100 + (
            data[4] as u64)
        };
        let low = geom_type % 256;
        let geometry_type = if low == 1 {
            String::from_str("Point")
        } else if low == 2 {
            String::from_str("LineString")
        } else if low == 3 {
            String::from_str("Polygon")
        } else if low == 4 {
            String::from_str("MultiPoint")
        } else if low == 5 {
            String::from_str("MultiLineString")
        } else if low == 6 {
            String::from_str("MultiPolygon")
        } else if low == 7 {
            String::from_str("GeometryCollection")
        } else {
            String::from_str("Unknown")
        };
        let dimension: u8 = if geom_type >= 0x80000000 {
            3
        } else {
            2
        };
        Ok(GeometryInfo { geometry_type, dimension, srid: None })
    }

    /// Whether a field is a geometry column: large-binary typed, with a
    /// well-known extension-name metadata entry.
    pub fn is_geometry_field(field: &crate::model::FieldDef) -> (r: bool)
        ensures
            r ==> field.data_type.spec_type_id() == crate::model::TYPE_LARGE_BINARY,
    {
        if field.data_type.type_id() != crate::model::TYPE_LARGE_BINARY {
            return false;
        }
        match assoc_find(&field.metadata, "ARROW:extension:name") {
            Some(name) => {
                let n = name.unicode_len();
                let geo_prefix = if n >= 4 {
                    str_eq(name.substring_char(0, 4), "geo.")
                } else {
                    false
                };
                geo_prefix || str_eq(name.as_str(), "geometry") || str_eq(name.as_str(), "wkb")
            },
            None => false,
        }
    }

    /// Validate that a field is an acceptable geometry column: it must be
    /// a geometry field whose extension name is one of the well-known
    /// geometry type names.
    pub fn validate_field(&self, field: &crate::model::FieldDef) -> (out: CoreResult<()>)
        ensures
            out is Ok ==> field.data_type.spec_type_id() == crate::model::TYPE_LARGE_BINARY,
            out is Err ==> (out matches Err(e) && e.code == ErrorCode::Validation),
    {
        if !GeometryPlugin::is_geometry_field(field) {
            let mut msg = String::from_str("Field '");
            msg.append(field.name.as_str());
            msg.append("' is not a valid geometry field");
            return Err(CoreError::validation(msg));
        }
        let extension_name = match assoc_find(&field.metadata, "ARROW:extension:name") {
            Some(name) => name,
            None => {
                return Err(CoreError::validation(
                    String::from_str("Missing ARROW:extension:name metadata"),
                ));
            },
        };
        let e = extension_name.as_str();
        let ok = str_eq(e, "geo.point") || str_eq(e, "geo.linestring") || str_eq(e, "geo.polygon")
            || str_eq(e, "geo.multipoint") || str_eq(e, "geo.multilinestring") || str_eq(
            e,
            "geo.multipolygon",
        ) || str_eq(e, "geometry") || str_eq(e, "wkb");
        if !ok {
            let mut msg = String::from_str("Unsupported geometry type: ");
            msg.append(e);
            return Err(CoreError::validation(msg));
        }
        Ok(())
    }
}

/// Validate a field against every registered plugin: the first plugin
/// that accepts it settles the matter, and a field no plugin recognizes
/// is still valid, since core types need no plugin.  The check itself
/// therefore never fails.
pub fn validate_field_with_plugins(reg: &PluginRegistry, field: &crate::model::FieldDef) -> (out:
    CoreResult<()>)
    ensures
        out is Ok,
{
    let n = reg.plugins.len();
    let mut i: usize = 0;
    while i < n
        invariant
            i <= n == reg.plugins@.len(),
        decreases n - i,
    {
        let accepted = match &reg.plugins[i].1 {
            PluginInstance::Geometry(g) => g.validate_field(field).is_ok(),
            PluginInstance::Demo(_) => true,
        };
        if accepted {
            return Ok(());
        }
        i = i + 1;
    }
    Ok(())
}

/// Register the geometry plugin under its canonical ID; a second
/// registration is rejected and changes nothing.
pub fn register_geometry_plugin(reg: &mut PluginRegistry) -> (out: CoreResult<()>)
    requires
        old(reg).wf(),
    ensures
        final(reg).wf(),
        out is Ok <==> !spec_assoc_has(old(reg).plugins@, "io.arrow.plugin.geo.v1"@),
        out is Ok ==> spec_assoc_has(final(reg).plugins@, "io.arrow.plugin.geo.v1"@),
        out is Ok ==> exists|i: int|
            0 <= i < final(reg).metadata@.len() && (#[trigger] final(reg).metadata@[i]).0@
                == "io.arrow.plugin.geo.v1"@ && final(reg).metadata@[i].1.name@
                == "Geometry Plugin"@ && final(reg).metadata@[i].1.version@ == "1.0.0"@,
        out is Err ==> *final(reg) == *old(reg),
{
    let plugin = PluginInstance::Geometry(GeometryPlugin::new());
    let ghost before = old(reg).metadata@.len() as int;
    let out = register_plugin_instance(reg, plugin);
    proof {
        if out is Ok {
            assert(reg.metadata@[before].0@ == "io.arrow.plugin.geo.v1"@);
        }
    }
    out
}

} // verus!
