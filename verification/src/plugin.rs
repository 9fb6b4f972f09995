//! The plumbing data of the host program, modeled as byte-level path text:
//! the standard directories, plugin executable resolution, plugin naming,
//! and the extraction cache's bookkeeping. No file is touched here; callers
//! hand in the root directories and take paths back.

use vstd::prelude::*;

use crate::theme::Theme;

verus! {

/// The bytes of `/luthien`.
pub open spec fn lit_luthien_dir() -> Seq<u8> {
    seq![47u8, 108u8, 117u8, 116u8, 104u8, 105u8, 101u8, 110u8]
}

/// The bytes of `/plugins/`.
pub open spec fn lit_plugins_dir() -> Seq<u8> {
    seq![47u8, 112u8, 108u8, 117u8, 103u8, 105u8, 110u8, 115u8, 47u8]
}

/// The bytes of `/outputs/plugins/`.
pub open spec fn lit_outputs_plugins_dir() -> Seq<u8> {
    seq![
        47u8,
        111u8,
        117u8,
        116u8,
        112u8,
        117u8,
        116u8,
        115u8,
        47u8,
        112u8,
        108u8,
        117u8,
        103u8,
        105u8,
        110u8,
        115u8,
        47u8,
    ]
}

/// The bytes of `/config.toml`.
pub open spec fn lit_config_file() -> Seq<u8> {
    seq![47u8, 99u8, 111u8, 110u8, 102u8, 105u8, 103u8, 46u8, 116u8, 111u8, 109u8, 108u8]
}

/// The bytes of `/themes`.
pub open spec fn lit_themes_dir() -> Seq<u8> {
    seq![47u8, 116u8, 104u8, 101u8, 109u8, 101u8, 115u8]
}

/// The bytes of `luthien-`.
pub open spec fn lit_plugin_prefix() -> Seq<u8> {
    seq![108u8, 117u8, 116u8, 104u8, 105u8, 101u8, 110u8, 45u8]
}

/// Appends `s` to `out`.
fn append_bytes(out: &mut Vec<u8>, s: &[u8])
    ensures
        final(out)@ == old(out)@ + s@,
{
    let n = s.len();
    let mut k: usize = 0;
    while k < n
        invariant
            n == s@.len(),
            k <= n,
            out@ =~= old(out)@ + s@.subrange(0, k as int),
        decreases n - k,
    {
        out.push(s[k]);
        k = k + 1;
    }
    proof {
        assert(out@ =~= old(out)@ + s@);
    }
}

/// Whether the content hash of an extraction source was computed, or hashing
/// does not apply to that source.
#[derive(Clone, Copy, Debug, PartialEq, Eq, Structural)]
pub enum HashResult {
    Finished,
    Inapplicable,
}

impl HashResult {
    pub fn finished(self) -> (r: bool)
        ensures
            r == (self is Finished),
    {
        match self {
            Self::Finished => true,
            Self::Inapplicable => false,
        }
    }
}

/// The host program's own paths: its configuration file, its theme store and
/// its cache directory, as path text bytes.
#[derive(Clone, Debug, PartialEq)]
pub struct Paths {
    pub config: Vec<u8>,
    pub themes: Vec<u8>,
    pub cache: Vec<u8>,
}

impl Paths {
    /// The standard paths under the given configuration and cache roots.
    pub fn new(config_root: &[u8], cache_root: &[u8]) -> (r: Paths)
        ensures
            r.config@ == config_root@ + lit_luthien_dir() + lit_config_file(),
            r.themes@ == config_root@ + lit_luthien_dir() + lit_themes_dir(),
            r.cache@ == cache_root@ + lit_luthien_dir(),
    {
        let mut config: Vec<u8> = Vec::new();
        append_bytes(&mut config, config_root);
        let a0: [u8; 20] = [
            47u8, 108u8, 117u8, 116u8, 104u8, 105u8, 101u8, 110u8, 47u8, 99u8, 111u8, 110u8,
            102u8, 105u8, 103u8, 46u8, 116u8, 111u8, 109u8, 108u8,
        ];
        append_bytes(&mut config, a0.as_slice());
        let mut themes: Vec<u8> = Vec::new();
        append_bytes(&mut themes, config_root);
        let a1: [u8; 15] = [
            47u8, 108u8, 117u8, 116u8, 104u8, 105u8, 101u8, 110u8, 47u8, 116u8, 104u8, 101u8,
            109u8, 101u8, 115u8,
        ];
        append_bytes(&mut themes, a1.as_slice());
        let mut cache: Vec<u8> = Vec::new();
        append_bytes(&mut cache, cache_root);
        let a2: [u8; 8] = [47u8, 108u8, 117u8, 116u8, 104u8, 105u8, 101u8, 110u8];
        append_bytes(&mut cache, a2.as_slice());
        proof {
            assert(a0@ =~= lit_luthien_dir() + lit_config_file());
            assert(a1@ =~= lit_luthien_dir() + lit_themes_dir());
            assert(a2@ =~= lit_luthien_dir());
            assert(config@ =~= config_root@ + lit_luthien_dir() + lit_config_file());
            assert(themes@ =~= config_root@ + lit_luthien_dir() + lit_themes_dir());
            assert(cache@ =~= cache_root@ + lit_luthien_dir());
        }
        Paths { config, themes, cache }
    }

    /// Overrides the configuration file path.
    pub fn set_config(&mut self, path: Vec<u8>)
        ensures
            final(self).config == path,
            final(self).themes == old(self).themes,
            final(self).cache == old(self).cache,
    {
        self.config = path;
    }
}

/// The four directories a plugin may use, each exclusive to the plugin.
#[derive(Clone, Debug, PartialEq)]
pub struct Directories {
    pub config: Vec<u8>,
    pub output: Vec<u8>,
    pub cache: Vec<u8>,
    pub data: Vec<u8>,
}

impl Directories {
    /// The plugin's directories under the given system roots.
    pub fn new(
        name: &[u8],
        config_root: &[u8],
        data_local_root: &[u8],
        cache_root: &[u8],
        data_root: &[u8],
    ) -> (r: Directories)
        ensures
            r.config@ == config_root@ + lit_luthien_dir() + lit_plugins_dir() + name@,
            r.output@ == data_local_root@ + lit_luthien_dir() + lit_outputs_plugins_dir() + name@,
            r.cache@ == cache_root@ + lit_luthien_dir() + lit_plugins_dir() + name@,
            r.data@ == data_root@ + lit_luthien_dir() + lit_plugins_dir() + name@,
    {
        let ap: [u8; 17] = [
            47u8, 108u8, 117u8, 116u8, 104u8, 105u8, 101u8, 110u8, 47u8, 112u8, 108u8, 117u8,
            103u8, 105u8, 110u8, 115u8, 47u8,
        ];
        let ao: [u8; 25] = [
            47u8, 108u8, 117u8, 116u8, 104u8, 105u8, 101u8, 110u8, 47u8, 111u8, 117u8, 116u8,
            112u8, 117u8, 116u8, 115u8, 47u8, 112u8, 108u8, 117u8, 103u8, 105u8, 110u8, 115u8,
            47u8,
        ];
        let mut config: Vec<u8> = Vec::new();
        append_bytes(&mut config, config_root);
        append_bytes(&mut config, ap.as_slice());
        append_bytes(&mut config, name);
        let mut output: Vec<u8> = Vec::new();
        append_bytes(&mut output, data_local_root);
        append_bytes(&mut output, ao.as_slice());
        append_bytes(&mut output, name);
        let mut cache: Vec<u8> = Vec::new();
        append_bytes(&mut cache, cache_root);
        append_bytes(&mut cache, ap.as_slice());
        append_bytes(&mut cache, name);
        let mut data: Vec<u8> = Vec::new();
        append_bytes(&mut data, data_root);
        append_bytes(&mut data, ap.as_slice());
        append_bytes(&mut data, name);
        proof {
            assert(ap@ =~= lit_luthien_dir() + lit_plugins_dir());
            assert(ao@ =~= lit_luthien_dir() + lit_outputs_plugins_dir());
            assert(config@ =~= config_root@ + lit_luthien_dir() + lit_plugins_dir() + name@);
            assert(output@ =~= data_local_root@ + lit_luthien_dir() + lit_outputs_plugins_dir()
                + name@);
            assert(cache@ =~= cache_root@ + lit_luthien_dir() + lit_plugins_dir() + name@);
            assert(data@ =~= data_root@ + lit_luthien_dir() + lit_plugins_dir() + name@);
        }
        Directories { config, output, cache, data }
    }
}

/// Everything handed to a plugin process: the relay pipe's path if one was
/// made, the plugin's directories and name, its raw option text, and the
/// theme.
#[derive(Clone, Debug, PartialEq)]
pub struct PluginInput {
    pub pipe: Option<Vec<u8>>,
    pub directories: Directories,
    pub name: Vec<u8>,
    pub options: Vec<u8>,
    pub theme: Theme,
}

/// The bytes after the last occurrence of `b`; the whole text when `b` does
/// not occur.
pub open spec fn spec_after_last(s: Seq<u8>, b: u8) -> Seq<u8>
    decreases s.len(),
{
    if s.len() == 0 {
        s
    } else if s.last() == b {
        Seq::empty()
    } else {
        spec_after_last(s.drop_last(), b).push(s.last())
    }
}

/// The bytes before the last occurrence of `b`.
pub open spec fn spec_before_last(s: Seq<u8>, b: u8) -> Seq<u8>
    decreases s.len(),
{
    if s.len() == 0 {
        s
    } else if s.last() == b {
        s.drop_last()
    } else {
        spec_before_last(s.drop_last(), b)
    }
}

pub open spec fn spec_has_byte(s: Seq<u8>, b: u8) -> bool {
    exists|k: int| 0 <= k < s.len() && s[k] == b
}

/// A file name's stem: the part before the last dot, or the whole name when
/// it has none.
pub open spec fn spec_stem(s: Seq<u8>) -> Seq<u8> {
    if spec_has_byte(s, 46) {
        spec_before_last(s, 46)
    } else {
        s
    }
}

/// The name with every leading `luthien-` removed.
pub open spec fn spec_strip_prefixes(s: Seq<u8>) -> Seq<u8>
    decreases s.len(),
{
    if s.len() >= 8 && s.subrange(0, 8) == lit_plugin_prefix() {
        spec_strip_prefixes(s.subrange(8, s.len() as int))
    } else {
        s
    }
}

/// A plugin's name, in the abstract: the configured one when there is one,
/// else the executable's file stem with every leading `luthien-` removed.
pub open spec fn spec_plugin_name(name: Option<Seq<u8>>, executable: Seq<u8>) -> Seq<u8> {
    match name {
        Some(n) => n,
        None => spec_strip_prefixes(spec_stem(spec_after_last(executable, 47))),
    }
}

/// After a point with no later occurrence of `b`, whose predecessor is `b`
/// or the start, the suffix is exactly what follows the last `b`.
proof fn lemma_after_last_split(s: Seq<u8>, b: u8, start: int)
    requires
        0 <= start <= s.len(),
        start == 0 || s[start - 1] == b,
        forall|j: int| start <= j < s.len() ==> s[j] != b,
    ensures
        spec_after_last(s, b) == s.subrange(start, s.len() as int),
    decreases s.len(),
{
    if s.len() == 0 {
        assert(s.subrange(0, 0) =~= s);
    } else if s.last() == b {
        assert(start == s.len());
        assert(s.subrange(start, s.len() as int) =~= Seq::<u8>::empty());
    } else {
        assert(start < s.len());
        lemma_after_last_split(s.drop_last(), b, start);
        assert(s.drop_last().subrange(start, s.len() - 1).push(s.last()) =~= s.subrange(
            start,
            s.len() as int,
        ));
    }
}

/// With the last occurrence of `b` at `cut`, the prefix before it is
/// everything up to `cut`.
proof fn lemma_before_last_split(s: Seq<u8>, b: u8, cut: int)
    requires
        0 <= cut < s.len(),
        s[cut] == b,
        forall|j: int| cut < j < s.len() ==> s[j] != b,
    ensures
        spec_before_last(s, b) == s.subrange(0, cut),
    decreases s.len(),
{
    if s.last() == b {
        assert(cut == s.len() - 1);
        assert(s.drop_last() =~= s.subrange(0, cut));
    } else {
        lemma_before_last_split(s.drop_last(), b, cut);
        assert(s.drop_last().subrange(0, cut) =~= s.subrange(0, cut));
    }
}

/// Finds the position after the last occurrence of `b`, or zero.
fn find_suffix_start(s: &[u8], b: u8) -> (r: usize)
    ensures
        r <= s@.len(),
        spec_after_last(s@, b) == s@.subrange(r as int, s@.len() as int),
{
    let n = s.len();
    let mut start: usize = 0;
    let mut k: usize = 0;
    while k < n
        invariant
            k <= n,
            n == s@.len(),
            start <= k,
            start == 0 || s@[start - 1] == b,
            forall|j: int| start <= j < k ==> s@[j] != b,
        decreases n - k,
    {
        if s[k] == b {
            start = k + 1;
        }
        k = k + 1;
    }
    proof {
        lemma_after_last_split(s@, b, start as int);
    }
    start
}

/// The stem of a file name: the bytes before the last dot, or all of them.
fn stem_of(s: &[u8]) -> (r: Vec<u8>)
    ensures
        r@ == spec_stem(s@),
{
    let n = s.len();
    let mut cut: usize = n;
    let mut k: usize = 0;
    while k < n
        invariant
            k <= n,
            n == s@.len(),
            cut == n || (cut < k && s@[cut as int] == 46),
            cut == n ==> (forall|j: int| 0 <= j < k ==> s@[j] != 46),
            cut < n ==> (forall|j: int| cut < j < k ==> s@[j] != 46),
        decreases n - k,
    {
        if s[k] == 46 {
            cut = k;
        }
        k = k + 1;
    }
    let upto: usize = if cut == n {
        proof {
            assert(!spec_has_byte(s@, 46));
        }
        n
    } else {
        proof {
            assert(spec_has_byte(s@, 46)) by {
                assert(s@[cut as int] == 46);
            }
            lemma_before_last_split(s@, 46, cut as int);
        }
        cut
    };
    let mut r: Vec<u8> = Vec::new();
    let mut k2: usize = 0;
    while k2 < upto
        invariant
            upto <= n,
            n == s@.len(),
            k2 <= upto,
            r@ =~= s@.subrange(0, k2 as int),
        decreases upto - k2,
    {
        r.push(s[k2]);
        k2 = k2 + 1;
    }
    proof {
        if cut == n {
            assert(s@.subrange(0, n as int) =~= s@);
        }
    }
    r
}

/// Whether the name still begins with `luthien-`.
fn has_plugin_prefix(v: &Vec<u8>) -> (r: bool)
    ensures
        r == (v@.len() >= 8 && v@.subrange(0, 8) == lit_plugin_prefix()),
{
    if v.len() < 8 {
        return false;
    }
    if v[0] == 108 && v[1] == 117 && v[2] == 116 && v[3] == 104 && v[4] == 105 && v[5] == 101
        && v[6] == 110 && v[7] == 45 {
        proof {
            assert(v@.subrange(0, 8) =~= lit_plugin_prefix());
        }
        true
    } else {
        proof {
            let sub = v@.subrange(0, 8);
            assert(sub[0] == v@[0] && sub[1] == v@[1] && sub[2] == v@[2] && sub[3] == v@[3]
                && sub[4] == v@[4] && sub[5] == v@[5] && sub[6] == v@[6] && sub[7] == v@[7]);
        }
        false
    }
}

/// A plugin's name, as the host derives it.
pub fn plugin_name(name: &Option<Vec<u8>>, executable: &[u8]) -> (r: Vec<u8>)
    ensures
        r@ == spec_plugin_name(
            (match name {
                Some(n) => Some(n@),
                None => None,
            }),
            executable@,
        ),
{
    match name {
        Some(n) => {
            let mut r: Vec<u8> = Vec::new();
            append_bytes(&mut r, n.as_slice());
            r
        },
        None => {
            let start = find_suffix_start(executable, 47);
            let nlen = executable.len();
            let mut base: Vec<u8> = Vec::new();
            let mut k: usize = start;
            while k < nlen
                invariant
                    start <= k <= nlen,
                    nlen == executable@.len(),
                    base@ =~= executable@.subrange(start as int, k as int),
                decreases nlen - k,
            {
                base.push(executable[k]);
                k = k + 1;
            }
            let mut v = stem_of(base.as_slice());
            while has_plugin_prefix(&v)
                invariant
                    spec_strip_prefixes(v@) == spec_strip_prefixes(
                        spec_stem(spec_after_last(executable@, 47)),
                    ),
                decreases v@.len(),
            {
                let m = v.len();
                let mut w: Vec<u8> = Vec::new();
                let mut k2: usize = 8;
                while k2 < m
                    invariant
                        8 <= k2 <= m,
                        m == v@.len(),
                        m >= 8,
                        w@ =~= v@.subrange(8, k2 as int),
                    decreases m - k2,
                {
                    w.push(v[k2]);
                    k2 = k2 + 1;
                }
                proof {
                    assert(w@ =~= v@.subrange(8, m as int));
                }
                v = w;
            }
            v
        },
    }
}

/// Where a configured plugin executable really lives: a path beginning with
/// `~` is taken from the home directory, an absolute path stands as it is,
/// and a relative path is taken from the base directory.
pub fn resolve_executable(executable: &[u8], home: &[u8], base: &[u8]) -> (r: Vec<u8>)
    ensures
        (executable@.len() >= 1 && executable@[0] == 126 && (executable@.len() == 1
            || executable@[1] == 47)) ==> r@ == home@ + executable@.subrange(
            1,
            executable@.len() as int,
        ),
        (executable@.len() >= 1 && executable@[0] == 47) ==> r@ == executable@,
        (executable@.len() == 0 || (executable@[0] != 47 && !(executable@[0] == 126 && (
        executable@.len() == 1 || executable@[1] == 47)))) ==> r@ == base@ + seq![47u8]
            + executable@,
{
    let n = executable.len();
    if n >= 1 && executable[0] == 126 && (n == 1 || executable[1] == 47) {
        let mut r: Vec<u8> = Vec::new();
        append_bytes(&mut r, home);
        let mut k: usize = 1;
        while k < n
            invariant
                1 <= k <= n,
                n == executable@.len(),
                r@ =~= home@ + executable@.subrange(1, k as int),
            decreases n - k,
        {
            r.push(executable[k]);
            k = k + 1;
        }
        proof {
            assert(r@ =~= home@ + executable@.subrange(1, n as int));
        }
        r
    } else if n >= 1 && executable[0] == 47 {
        let mut r: Vec<u8> = Vec::new();
        append_bytes(&mut r, executable);
        r
    } else {
        let mut r: Vec<u8> = Vec::new();
        append_bytes(&mut r, base);
        r.push(47);
        append_bytes(&mut r, executable);
        proof {
            assert(r@ =~= base@ + seq![47u8] + executable@);
        }
        r
    }
}

/// What the extraction step should do about its cache.
#[derive(Clone, Copy, Debug, PartialEq, Eq, Structural)]
pub struct CachePlan {
    pub use_cached: bool,
    pub store: bool,
}

/// The cache decision: a cached theme is read only when hashing applied,
/// caching is enabled and the cached file exists; a fresh extraction is
/// stored whenever hashing applied.
pub fn cache_plan(cache_enabled: bool, hash_finished: bool, cache_exists: bool) -> (r: CachePlan)
    ensures
        r.use_cached == (hash_finished && cache_enabled && cache_exists),
        r.store == hash_finished,
{
    CachePlan { use_cached: hash_finished && cache_enabled && cache_exists, store: hash_finished }
}

/// The lowercase hex digits of a number, most significant first.
pub open spec fn spec_hex_u64(n: int) -> Seq<u8>
    decreases n,
{
    if n < 16 {
        seq![crate::hex::spec_hex_digit(
            if n >= 0 {
                n
            } else {
                0
            },
        )]
    } else {
        spec_hex_u64(n / 16).push(crate::hex::spec_hex_digit(n % 16))
    }
}

fn push_hex_u64(out: &mut Vec<u8>, n: u64)
    ensures
        final(out)@ == old(out)@ + spec_hex_u64(n as int),
    decreases n,
{
    if n < 16 {
        let d: u8 = if n < 10 {
            48 + (n as u8)
        } else {
            87 + (n as u8)
        };
        out.push(d);
        proof {
            assert(out@ =~= old(out)@ + spec_hex_u64(n as int));
        }
    } else {
        push_hex_u64(out, n / 16);
        let m: u8 = (n % 16) as u8;
        let d: u8 = if m < 10 {
            48 + m
        } else {
            87 + m
        };
        out.push(d);
        proof {
            assert(out@ =~= old(out)@ + spec_hex_u64(n as int));
        }
    }
}

/// Formats a content hash as the cache file's name.
pub fn hex_u64(n: u64) -> (r: Vec<u8>)
    ensures
        r@ == spec_hex_u64(n as int),
{
    let mut out: Vec<u8> = Vec::new();
    push_hex_u64(&mut out, n);
    proof {
        assert(out@ =~= spec_hex_u64(n as int));
    }
    out
}

} // verus!
