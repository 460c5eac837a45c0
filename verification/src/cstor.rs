//! Importing images from containers-storage.
//!
//! [`import_from_containers_storage`] decides how the storage is accessed,
//! [`storage_search_paths`] where it is looked for, and [`import_image`] starts
//! the import of an image whose layers have been found. A layer arrives as frames
//! of file descriptors, which [`LayerFrames`] puts together.
use vstd::prelude::*;
use vstd::string::*;
use vstd::utf8::*;

use crate::digest::OciDigest;
use crate::import;
use crate::import::{ImageImport, Import, ImportLayer, MetadataSource};
use crate::text;
use crate::varlink_types::{GetLayerParams, GetLayerReply, StorageLocator};

verus! {

/// Check if an image reference uses the containers-storage transport.
///
/// Returns the image ID portion if the reference starts with
/// "containers-storage:", otherwise returns None.
pub fn parse_containers_storage_ref(imgref: &str) -> (image: Option<&str>)
    ensures
        match image {
            Some(i) => imgref@ == "containers-storage:"@ + i@,
            None => {
                &&& !text::has_prefix(imgref@, "containers-storage:"@)
                &&& forall|i: Seq<char>| imgref@ != #[trigger] ("containers-storage:"@ + i)
            },
        },
{
    let image = text::strip_prefix(imgref, "containers-storage:");
    proof {
        assert forall|i: Seq<char>| image is None implies imgref@ != #[trigger] (
        "containers-storage:"@ + i) by {
            text::prefix_is_what_is_cut_off("containers-storage:"@, i, imgref@);
        }
    }
    proof {
        let prefix = "containers-storage:"@;
        if text::has_prefix(imgref@, prefix) {
            assert(imgref@ =~= prefix + imgref@.skip(prefix.len() as int));
        }
    }
    image
}

/// How containers-storage is accessed.
#[derive(Debug)]
pub enum StorageAccess<S = String, L = Vec<String>> {
    /// Directly, in this process.
    Direct {
        /// Explicit storage root; skips auto-discovery when set.
        storage_root: Option<S>,
        /// Additional read-only image stores.
        additional_image_stores: L,
    },
    /// Through a helper process in a user namespace, which finds the storage by
    /// itself.
    Proxied,
}

impl View for StorageAccess<String, Vec<String>> {
    type V = StorageAccess<Seq<char>, Seq<Seq<char>>>;

    open spec fn view(&self) -> StorageAccess<Seq<char>, Seq<Seq<char>>> {
        match self {
            StorageAccess::Direct { storage_root, additional_image_stores } => StorageAccess::Direct {
                storage_root: text::opt_text(*storage_root),
                additional_image_stores: text::texts(additional_image_stores@),
            },
            StorageAccess::Proxied => StorageAccess::Proxied,
        }
    }
}

/// Explicit storage paths were given where they cannot be used.
#[derive(Debug, Clone, Copy, PartialEq, Eq, Structural)]
pub struct ExplicitStorageUnsupported;

impl ExplicitStorageUnsupported {
    /// What the error says.
    pub fn message(&self) -> (message: &'static str)
        ensures
            message@
                == "storage_root and additional_image_stores are not supported in rootless mode"@,
    {
        "storage_root and additional_image_stores are not supported in rootless mode"
    }
}

/// Decides how to import an image from containers-storage.
///
/// A process that can bypass file permissions accesses the storage directly. Any
/// other one needs the helper process, to which explicit storage paths cannot be
/// passed on.
pub fn import_from_containers_storage(
    can_bypass_file_permissions: bool,
    storage_root: Option<String>,
    additional_image_stores: Vec<String>,
) -> (access: Result<StorageAccess, ExplicitStorageUnsupported>)
    ensures
        can_bypass_file_permissions ==> (access matches Ok(a) && a@ == (StorageAccess::<
            Seq<char>,
            Seq<Seq<char>>,
        >::Direct {
            storage_root: text::opt_text(storage_root),
            additional_image_stores: text::texts(additional_image_stores@),
        })),
        !can_bypass_file_permissions ==> if storage_root is Some || additional_image_stores@.len()
            > 0 {
            access is Err
        } else {
            access matches Ok(a) && a@ == StorageAccess::<Seq<char>, Seq<Seq<char>>>::Proxied
        },
{
    if can_bypass_file_permissions {
        Ok(StorageAccess::Direct { storage_root, additional_image_stores })
    } else if storage_root.is_some() || additional_image_stores.len() > 0 {
        Err(ExplicitStorageUnsupported)
    } else {
        Ok(StorageAccess::Proxied)
    }
}

/// The environment variables that say where containers-storage may be.
#[derive(Debug)]
pub struct StorageEnv<S = String> {
    /// `CONTAINERS_STORAGE_ROOT`.
    pub storage_root: Option<S>,
    /// `HOME`.
    pub home: Option<S>,
    /// `XDG_DATA_HOME`.
    pub xdg_data_home: Option<S>,
    /// `STORAGE_OPTS`.
    pub storage_opts: Option<S>,
}

impl View for StorageEnv<String> {
    type V = StorageEnv<Seq<char>>;

    open spec fn view(&self) -> StorageEnv<Seq<char>> {
        StorageEnv {
            storage_root: text::opt_text(self.storage_root),
            home: text::opt_text(self.home),
            xdg_data_home: text::opt_text(self.xdg_data_home),
            storage_opts: text::opt_text(self.storage_opts),
        }
    }
}

/// The store that one item of `STORAGE_OPTS` adds.
pub open spec fn store_of_option(item: Seq<char>) -> Option<Seq<char>> {
    text::without_prefix(text::trimmed(item), "additionalimagestore="@)
}

/// The stores that the items of `STORAGE_OPTS` add, in order.
pub open spec fn stores_of_options(items: Seq<Seq<char>>) -> Seq<Seq<char>>
    decreases items.len(),
{
    if items.len() == 0 {
        Seq::empty()
    } else {
        let before = stores_of_options(items.drop_last());
        match store_of_option(items.last()) {
            Some(store) => before.push(store),
            None => before,
        }
    }
}

impl StorageEnv<Seq<char>> {
    /// The paths below the home directory. `XDG_DATA_HOME` only counts if `HOME`
    /// is set.
    pub open spec fn home_paths(self) -> Seq<Seq<char>> {
        match self.home {
            Some(home) => (match self.xdg_data_home {
                Some(xdg) => seq![xdg + "/containers/storage"@],
                None => Seq::empty(),
            }).push(home + "/.local/share/containers/storage"@),
            None => Seq::empty(),
        }
    }

    /// The paths where containers-storage may be, in the order in which they are
    /// tried.
    pub open spec fn search_paths(self) -> Seq<Seq<char>> {
        let root = match self.storage_root {
            Some(root) => seq![root],
            None => Seq::empty(),
        };
        let stores = match self.storage_opts {
            Some(opts) => stores_of_options(text::pieces(opts, ',')),
            None => Seq::empty(),
        };
        root + self.home_paths() + seq!["/var/lib/containers/storage"@] + stores
    }
}

fn push_text(paths: &mut Vec<String>, path: String)
    ensures
        text::texts(final(paths)@) == text::texts(old(paths)@).push(path@),
{
    let ghost before = text::texts(paths@);
    paths.push(path);
    assert(text::texts(paths@) =~= before.push(path@));
}

/// Return the ordered list of storage root paths to search.
pub fn storage_search_paths(env: &StorageEnv) -> (paths: Vec<String>)
    ensures
        text::texts(paths@) == env@.search_paths(),
        env.storage_root matches Some(root) ==> paths@.len() > 0 && paths@[0]@ == root@,
        env.home matches Some(home) ==> exists|i: int, j: int|
            {
                &&& 0 <= i < j < paths@.len()
                &&& (#[trigger] paths@[i])@ == home@ + "/.local/share/containers/storage"@
                &&& (#[trigger] paths@[j])@ == "/var/lib/containers/storage"@
                &&& env.xdg_data_home matches Some(xdg) ==> i > 0 && paths@[i - 1]@ == xdg@
                    + "/containers/storage"@
            },
        exists|j: int|
            0 <= j < paths@.len() && (#[trigger] paths@[j])@ == "/var/lib/containers/storage"@,
{
    let mut paths: Vec<String> = Vec::new();
    let ghost none = Seq::<Seq<char>>::empty();
    assert(text::texts(paths@) =~= none);
    if let Some(root) = &env.storage_root {
        push_text(&mut paths, root.clone());
    }
    let ghost root = text::texts(paths@);
    if let Some(home) = &env.home {
        if let Some(xdg) = &env.xdg_data_home {
            push_text(&mut paths, text::join2(xdg.as_str(), "/containers/storage"));
        }
        push_text(&mut paths, text::join2(home.as_str(), "/.local/share/containers/storage"));
    }
    assert(text::texts(paths@) =~= root + env@.home_paths());
    push_text(&mut paths, "/var/lib/containers/storage".to_owned());
    let ghost first = text::texts(paths@);
    if let Some(opts) = &env.storage_opts {
        let items: Vec<String> = text::split(opts.as_str(), ',');
        let ghost all = text::texts(items@);
        assert(all.take(0) =~= none);
        assert(first + none =~= first);
        let mut i: usize = 0;
        while i < items.len()
            invariant
                i <= items@.len(),
                all == text::texts(items@),
                text::texts(paths@) == first + stores_of_options(all.take(i as int)),
            decreases items@.len() - i,
        {
            assert(all.take(i + 1).drop_last() =~= all.take(i as int));
            let item: String = text::trim(items[i].as_str());
            if let Some(store) = text::strip_prefix(item.as_str(), "additionalimagestore=") {
                push_text(&mut paths, store.to_owned());
            }
            i += 1;
            assert(text::texts(paths@) =~= first + stores_of_options(all.take(i as int)));
        }
        assert(all.take(i as int) =~= all);
    }
    assert(text::texts(paths@) =~= env@.search_paths());
    proof {
        searched_paths_are_in_order(env@);
        let root: int = if env.storage_root is Some {
            1
        } else {
            0
        };
        let xdg: int = if env.xdg_data_home is Some {
            1
        } else {
            0
        };
        let home: int = if env.home is Some {
            xdg + 1
        } else {
            0
        };
        assert forall|i: int| 0 <= i < paths@.len() implies text::texts(paths@)[i]
            == #[trigger] paths@[i]@ by {}
        assert(paths@[root + home]@ == "/var/lib/containers/storage"@);
        if env.home is Some {
            assert(paths@[root + xdg]@ == env.home->Some_0@ + "/.local/share/containers/storage"@);
        }
    }
    paths
}

/// The paths where containers-storage is searched for, place by place: the explicit
/// root, if there is one; then, if there is a home directory, the store below
/// `XDG_DATA_HOME`, if that is set, and in any case the one below the home directory;
/// then the store of the system; then the stores of `STORAGE_OPTS`.
pub proof fn searched_paths_are_in_order(env: StorageEnv<Seq<char>>)
    ensures
        ({
            let paths = env.search_paths();
            let root: int = if env.storage_root is Some {
                1
            } else {
                0
            };
            let xdg: int = if env.xdg_data_home is Some {
                1
            } else {
                0
            };
            let home: int = if env.home is Some {
                xdg + 1
            } else {
                0
            };
            &&& paths.len() > root + home
            &&& env.storage_root matches Some(r) ==> paths[0] == r
            &&& env.home matches Some(h) ==> {
                &&& paths[root + xdg] == h + "/.local/share/containers/storage"@
                &&& env.xdg_data_home matches Some(x) ==> paths[root] == x + "/containers/storage"@
            }
            &&& paths[root + home] == "/var/lib/containers/storage"@
            &&& env.storage_opts is None ==> paths.len() == root + home + 1
        }),
{
}

/// `STORAGE_OPTS` adds one store for every item that, without the white space around
/// it, is `additionalimagestore=` and a path: the stores of two lists of items are
/// those of the first and then those of the second.
pub proof fn options_add_stores_one_by_one(
    xs: Seq<Seq<char>>,
    ys: Seq<Seq<char>>,
    item: Seq<char>,
    path: Seq<char>,
)
    ensures
        stores_of_options(Seq::empty()) == Seq::<Seq<char>>::empty(),
        text::trimmed(item) == "additionalimagestore="@ + path ==> stores_of_options(seq![item])
            == seq![path],
        (forall|p: Seq<char>|
            text::trimmed(item) != #[trigger] ("additionalimagestore="@ + p)) ==> stores_of_options(
            seq![item],
        ) == Seq::<Seq<char>>::empty(),
        stores_of_options(xs + ys) == stores_of_options(xs) + stores_of_options(ys),
    decreases ys.len(),
{
    reveal_with_fuel(stores_of_options, 2);
    let prefix = "additionalimagestore="@;
    let t = text::trimmed(item);
    assert(seq![item].drop_last() =~= Seq::empty());
    assert(seq![item].last() == item);
    text::prefix_is_what_is_cut_off(prefix, path, t);
    match text::without_prefix(t, prefix) {
        Some(p) => {
            text::prefix_is_what_is_cut_off(prefix, p, t);
            assert(t == prefix + p);
            assert(stores_of_options(seq![item]) =~= seq![p]);
        },
        None => {
            assert(stores_of_options(seq![item]) =~= Seq::empty());
        },
    }
    if ys.len() == 0 {
        assert(xs + ys =~= xs);
        assert(stores_of_options(xs) + Seq::<Seq<char>>::empty() =~= stores_of_options(xs));
    } else {
        options_add_stores_one_by_one(xs, ys.drop_last(), item, path);
        assert((xs + ys).drop_last() =~= xs + ys.drop_last());
        assert((xs + ys).last() == ys.last());
        assert(stores_of_options(xs + ys) =~= stores_of_options(xs) + stores_of_options(ys));
    }
}

/// The stores of `STORAGE_OPTS` come last: its items are what stands between the
/// commas.
pub proof fn stores_of_the_options_come_last(env: StorageEnv<Seq<char>>, items: Seq<Seq<char>>)
    requires
        items.len() > 0,
        forall|i: int, j: int|
            0 <= i < items.len() && 0 <= j < items[i].len() ==> #[trigger] items[i][j] != ',',
        env.storage_opts == Some(text::joined(items, seq![','])),
    ensures
        env.search_paths() == (StorageEnv { storage_opts: None, ..env }).search_paths()
            + stores_of_options(items),
{
    text::splitting_undoes_joining(Seq::empty(), ',', items);
    let without = StorageEnv { storage_opts: None, ..env };
    assert(without.home_paths() == env.home_paths());
    assert(env.search_paths() =~= without.search_paths() + stores_of_options(items));
}

/// The paths to search when an explicit storage root, and more stores, may be
/// given. The root skips auto-discovery; the stores come after it in either case.
pub open spec fn store_paths_model(
    env: StorageEnv<Seq<char>>,
    storage_root: Option<Seq<char>>,
    additional_image_stores: Seq<Seq<char>>,
) -> Seq<Seq<char>> {
    (match storage_root {
        Some(root) => seq![root],
        None => env.search_paths(),
    }) + additional_image_stores
}

/// Builds the ordered list of store root paths to search.
pub fn store_paths(
    env: &StorageEnv,
    storage_root: &Option<String>,
    additional_image_stores: &Vec<String>,
) -> (paths: Vec<String>)
    ensures
        text::texts(paths@) == store_paths_model(
            env@,
            text::opt_text(*storage_root),
            text::texts(additional_image_stores@),
        ),
{
    let mut paths: Vec<String> = Vec::new();
    match storage_root {
        Some(root) => {
            assert(text::texts(paths@) =~= Seq::empty());
            push_text(&mut paths, root.clone());
            assert(text::texts(paths@) =~= seq![root@]);
        },
        None => {
            paths = storage_search_paths(env);
        },
    }
    let ghost first = text::texts(paths@);
    let ghost more = text::texts(additional_image_stores@);
    assert(first + more.take(0) =~= first);
    let mut i: usize = 0;
    while i < additional_image_stores.len()
        invariant
            i <= additional_image_stores@.len(),
            more == text::texts(additional_image_stores@),
            text::texts(paths@) == first + more.take(i as int),
        decreases additional_image_stores@.len() - i,
    {
        push_text(&mut paths, additional_image_stores[i].clone());
        i += 1;
        assert(text::texts(paths@) =~= first + more.take(i as int));
    }
    assert(more.take(i as int) =~= more);
    paths
}

/// An explicit root is searched first and in place of everything that would be found
/// without it; the additional stores come last in any case.
pub proof fn explicit_root_skips_discovery(
    env: StorageEnv<Seq<char>>,
    other: StorageEnv<Seq<char>>,
    root: Seq<char>,
    more: Seq<Seq<char>>,
    k: int,
)
    ensures
        ({
            let explicit = store_paths_model(env, Some(root), more);
            let found = store_paths_model(env, None, more);
            &&& explicit.len() == more.len() + 1
            &&& explicit[0] == root
            &&& explicit == store_paths_model(other, Some(root), more)
            &&& found.len() == env.search_paths().len() + more.len()
            &&& 0 <= k < more.len() ==> explicit[k + 1] == more[k]
            &&& 0 <= k < more.len() ==> found[env.search_paths().len() + k] == more[k]
            &&& 0 <= k < env.search_paths().len() ==> found[k] == env.search_paths()[k]
        }),
{
}

impl StorageAccess<Seq<char>, Seq<Seq<char>>> {
    /// The stores that are searched. The helper process finds the storage by
    /// itself.
    pub open spec fn paths(self, env: StorageEnv<Seq<char>>) -> Seq<Seq<char>> {
        match self {
            StorageAccess::Direct {
                storage_root,
                additional_image_stores,
            } => store_paths_model(env, storage_root, additional_image_stores),
            StorageAccess::Proxied => store_paths_model(env, None, Seq::empty()),
        }
    }
}

impl StorageAccess {
    /// The ordered list of store root paths to search.
    pub fn store_paths(&self, env: &StorageEnv) -> (paths: Vec<String>)
        ensures
            text::texts(paths@) == self@.paths(env@),
    {
        match self {
            StorageAccess::Direct { storage_root, additional_image_stores } => store_paths(
                env,
                storage_root,
                additional_image_stores,
            ),
            StorageAccess::Proxied => {
                let none: Vec<String> = Vec::new();
                assert(text::texts(none@) =~= Seq::empty());
                store_paths(env, &None, &none)
            },
        }
    }
}

/// The helper process searches the stores that direct access without explicit
/// storage paths searches, in the same order.
pub proof fn proxied_access_searches_the_same_stores(env: StorageEnv<Seq<char>>)
    ensures
        StorageAccess::<Seq<char>, Seq<Seq<char>>>::Proxied.paths(env) == (StorageAccess::<
            Seq<char>,
            Seq<Seq<char>>,
        >::Direct { storage_root: None, additional_image_stores: Seq::empty() }).paths(env),
        StorageAccess::<Seq<char>, Seq<Seq<char>>>::Proxied.paths(env) == env.search_paths(),
{
    assert(env.search_paths() + Seq::empty() =~= env.search_paths());
}

/// Direct access searches the explicit root, or else what is found without one, and
/// then the additional stores.
pub proof fn direct_access_searches_what_was_given(
    env: StorageEnv<Seq<char>>,
    storage_root: Option<Seq<char>>,
    more: Seq<Seq<char>>,
    k: int,
)
    ensures
        ({
            let access = StorageAccess::<Seq<char>, Seq<Seq<char>>>::Direct {
                storage_root,
                additional_image_stores: more,
            };
            let paths = access.paths(env);
            &&& storage_root matches Some(root) ==> paths[0] == root && paths.len() == more.len()
                + 1
            &&& storage_root is None ==> paths.take(env.search_paths().len() as int)
                == env.search_paths() && paths.len() == env.search_paths().len() + more.len()
            &&& 0 <= k < more.len() ==> paths[paths.len() - more.len() + k] == more[k]
        }),
{
    let found = env.search_paths();
    assert((found + more).take(found.len() as int) =~= found);
}

/// The models of environment and access have the texts of what they are models of.
pub proof fn storage_models_are_faithful(env: StorageEnv, access: StorageAccess)
    ensures
        env@.storage_root == text::opt_text(env.storage_root),
        env@.home == text::opt_text(env.home),
        env@.xdg_data_home == text::opt_text(env.xdg_data_home),
        env@.storage_opts == text::opt_text(env.storage_opts),
        access is Proxied <==> access@ is Proxied,
        access matches StorageAccess::Direct { storage_root, additional_image_stores } ==> access@
            == (StorageAccess::<Seq<char>, Seq<Seq<char>>>::Direct {
            storage_root: text::opt_text(storage_root),
            additional_image_stores: text::texts(additional_image_stores@),
        }),
{
}

/// A character of the standard base64 alphabet.
pub open spec fn base64_char(v: int) -> char {
    if v < 26 {
        ('A' as u32 + v) as char
    } else if v < 52 {
        ('a' as u32 + (v - 26)) as char
    } else if v < 62 {
        ('0' as u32 + (v - 52)) as char
    } else if v == 62 {
        '+'
    } else {
        '/'
    }
}

/// The byte at `i`, or zero behind the end.
pub open spec fn byte_or_zero(bytes: Seq<u8>, i: int) -> int {
    if i < bytes.len() {
        bytes[i] as int
    } else {
        0
    }
}

/// The padded base64 form of `bytes`: every three bytes, most significant first,
/// become four characters of six bits each, and characters that no byte reaches
/// become `=`.
pub open spec fn base64_text(bytes: Seq<u8>) -> Seq<char> {
    Seq::new(
        base64_len(bytes.len()),
        |i: int|
            {
                let first = 3 * (i / 4);
                let bits = byte_or_zero(bytes, first) * 65536 + byte_or_zero(bytes, first + 1) * 256
                    + byte_or_zero(bytes, first + 2);
                if i % 4 == 0 {
                    base64_char(bits / 262144)
                } else if i % 4 == 1 {
                    base64_char(bits / 4096 % 64)
                } else if first + i % 4 > bytes.len() {
                    '='
                } else if i % 4 == 2 {
                    base64_char(bits / 64 % 64)
                } else {
                    base64_char(bits % 64)
                }
            },
    )
}

/// How many characters the base64 form of `n` bytes has.
pub open spec fn base64_len(n: nat) -> nat {
    4 * ((n + 2) / 3)
}

/// Calls `base64::engine::general_purpose::STANDARD.encode`: the standard
/// alphabet with padding. The result has to fit into memory.
#[verifier::external_body]
fn base64_standard(bytes: &[u8]) -> (encoded: String)
    requires
        base64_len(bytes@.len()) <= isize::MAX,
    ensures
        encoded@ == base64_text(bytes@),
{
    base64::Engine::encode(&base64::engine::general_purpose::STANDARD, bytes)
}

/// The name of the config in the metadata of an image.
pub open spec fn config_name(image_id: Seq<char>) -> Seq<u8> {
    encode_utf8("sha256:"@ + image_id)
}

/// The name of a config is the text of the digest that the image ID is.
pub proof fn config_is_named_by_the_image_id(image_id: Seq<char>, other: Seq<char>)
    ensures
        decode_utf8(config_name(image_id)) == "sha256:"@ + image_id,
        config_name(image_id) == config_name(other) ==> image_id == other,
{
    let prefix = "sha256:"@;
    encode_utf8_decode_utf8(prefix + image_id);
    encode_utf8_decode_utf8(prefix + other);
    assert((prefix + image_id).skip(prefix.len() as int) =~= image_id);
    assert((prefix + other).skip(prefix.len() as int) =~= other);
}

/// Whether the key of the config of an image fits into memory.
pub fn can_make_config_key(image_id: &str) -> (fits: bool)
    ensures
        fits == (base64_len(config_name(image_id@).len()) <= isize::MAX),
{
    let name: String = text::join2("sha256:", image_id);
    let count: usize = name.as_str().as_bytes_vec().len();
    let length: u128 = 4 * ((count as u128 + 2) / 3);
    length <= isize::MAX as u128
}

/// The key under which containers-storage keeps the config of an image.
pub fn config_key(image_id: &str) -> (key: String)
    requires
        base64_len(config_name(image_id@).len()) <= isize::MAX,
    ensures
        key@ == base64_text(config_name(image_id@)),
{
    let name: String = text::join2("sha256:", image_id);
    let bytes: Vec<u8> = name.as_str().as_bytes_vec();
    base64_standard(bytes.as_slice())
}

/// A layer and where it was found.
#[derive(Debug)]
pub struct ResolvedLayer {
    /// The root of the store it is in.
    pub storage_path: String,
    /// Its ID in that store.
    pub layer_id: String,
    /// Its diff-id.
    pub diff_id: OciDigest,
}

/// The models of a list of found layers: store, layer ID and diff-id.
pub open spec fn resolved_model(v: Seq<ResolvedLayer>) -> Seq<(Seq<char>, Seq<char>, Seq<char>)> {
    Seq::new(v.len(), |i: int| (v[i].storage_path@, v[i].layer_id@, v[i].diff_id@))
}

/// How a found layer is imported: under its diff-id, and asked for by its place.
pub open spec fn storage_layer(layer: (Seq<char>, Seq<char>, Seq<char>)) -> (
    Seq<char>,
    GetLayerParams<Seq<char>>,
) {
    (
        layer.2,
        GetLayerParams {
            diff_id: None,
            storage: Some(StorageLocator { storage_path: layer.0, layer_id: layer.1 }),
        },
    )
}

/// A found layer is kept under its own diff-id and asked for in the store and by the ID
/// that it was found in and under; so layers that were found in different places are
/// asked for differently.
pub proof fn found_layers_are_asked_for_in_their_place(v: Seq<ResolvedLayer>, j: int, k: int)
    requires
        0 <= j < v.len(),
        0 <= k < v.len(),
    ensures
        ({
            let all = resolved_model(v);
            let (diff_id, params) = storage_layer(all[k]);
            &&& all.len() == v.len()
            &&& all[k] == (v[k].storage_path@, v[k].layer_id@, v[k].diff_id@)
            &&& diff_id == v[k].diff_id@
            &&& params.diff_id is None
            &&& params.storage matches Some(place) && place.storage_path == v[k].storage_path@
                && place.layer_id == v[k].layer_id@
            &&& v[j].storage_path@ != v[k].storage_path@ || v[j].layer_id@ != v[k].layer_id@
                ==> storage_layer(all[j]).1 != params
        }),
{
}

/// Starts the import of an image of containers-storage whose layers were found.
///
/// It is the same whether the storage is accessed directly or through the helper
/// process.
pub fn import_image(
    image_id: &str,
    layers: Vec<ResolvedLayer>,
    reference: Option<String>,
    zerocopy: bool,
) -> (r: ImageImport)
    requires
        base64_len(config_name(image_id@).len()) <= isize::MAX,
    ensures
        r@ == Import::start(
            resolved_model(layers@).map_values(
                |l: (Seq<char>, Seq<char>, Seq<char>)| storage_layer(l),
            ),
            text::opt_text(reference),
            zerocopy,
            MetadataSource::Storage { config_key: base64_text(config_name(image_id@)) },
        ),
        forall|i: int| 0 <= i < layers@.len() ==> (#[trigger] r@.layers[i]).1.valid(),
        r@.layers.len() == layers@.len(),
        forall|k: int|
            0 <= k < layers@.len() ==> {
                let (diff_id, params) = #[trigger] r@.layers[k];
                &&& diff_id == layers@[k].diff_id@
                &&& params.diff_id is None
                &&& params.storage == Some(
                    StorageLocator {
                        storage_path: layers@[k].storage_path@,
                        layer_id: layers@[k].layer_id@,
                    },
                )
            },
        r@.zerocopy == zerocopy,
        r@.reference == text::opt_text(reference),
{
    let ghost found = layers@;
    let ghost whole = resolved_model(layers@);
    proof {
        assert forall|k: int| 0 <= k < found.len() implies #[trigger] whole[k] == (
            found[k].storage_path@,
            found[k].layer_id@,
            found[k].diff_id@,
        ) by {
            found_layers_are_asked_for_in_their_place(found, k, k);
        }
    }
    let mut todo: Vec<ImportLayer> = Vec::new();
    for layer in it: layers
        invariant
            whole == resolved_model(it.seq()),
            import::layers_model(todo@) == whole.take(it.index() as int).map_values(
                |l: (Seq<char>, Seq<char>, Seq<char>)| storage_layer(l),
            ),
    {
        let ghost before = import::layers_model(todo@);
        let ghost model = whole[it.index() as int];
        let ResolvedLayer { storage_path, layer_id, diff_id } = layer;
        todo.push(
            ImportLayer {
                diff_id,
                params: GetLayerParams {
                    diff_id: None,
                    storage: Some(StorageLocator { storage_path, layer_id }),
                },
            },
        );
        assert(import::layers_model(todo@) =~= before.push(storage_layer(model)));
        assert(import::layers_model(todo@) =~= whole.take(it.index() as int + 1).map_values(
            |l: (Seq<char>, Seq<char>, Seq<char>)| storage_layer(l),
        ));
    }
    assert(whole.take(whole.len() as int) =~= whole);
    ImageImport::start(
        todo,
        reference,
        zerocopy,
        MetadataSource::Storage { config_key: config_key(image_id) },
    )
}

/// The name of a layer in messages: its ID in containers-storage, or else the
/// diff-id it was asked for by.
pub open spec fn label_model(params: GetLayerParams<Seq<char>>) -> Seq<char> {
    match params.storage {
        Some(locator) => locator.layer_id,
        None => match params.diff_id {
            Some(diff_id) => diff_id,
            None => Seq::empty(),
        },
    }
}

/// The name of a layer in messages.
pub fn transfer_label(params: &GetLayerParams) -> (label: String)
    ensures
        label@ == label_model(params@),
{
    match &params.storage {
        Some(locator) => locator.layer_id.clone(),
        None => match &params.diff_id {
            Some(diff_id) => diff_id.clone(),
            None => String::new(),
        },
    }
}

/// A layer that is asked for by its place goes by its ID there, whatever its diff-id;
/// one that is asked for by its diff-id goes by that.
pub proof fn label_names_the_layer(diff_id: Option<Seq<char>>, place: StorageLocator<Seq<char>>)
    ensures
        label_model(GetLayerParams { diff_id, storage: Some(place) }) == place.layer_id,
        diff_id matches Some(d) ==> label_model(GetLayerParams { diff_id, storage: None }) == d,
        label_model(GetLayerParams { diff_id: None, storage: None }) == Seq::<char>::empty(),
{
}

/// Why the reply to `GetLayer` could not be used.
#[derive(Debug, Clone, Copy, PartialEq, Eq, Structural)]
pub enum TransferError {
    /// It had no frames.
    NoFrames,
    /// It had too few file descriptors.
    TooFewFds {
        /// How many directory slots it announced.
        dir_count: u32,
        /// How many file descriptors there were.
        got: usize,
    },
}

impl TransferError {
    /// What the error says.
    pub open spec fn text(self) -> Seq<char> {
        match self {
            TransferError::NoFrames => "Oci.GetLayer yielded no frames"@,
            TransferError::TooFewFds { dir_count, got } => "Oci.GetLayer: expected at least "@
                + text::decimal_text(dir_count as nat + 2) + " fds (1 pipe + "@
                + text::decimal_text(dir_count as nat) + " dirfd slots + 1 keepalive), got "@
                + text::decimal_text(got as nat),
        }
    }

    /// What the error says.
    pub fn message(&self) -> (message: String)
        ensures
            message@ == self.text(),
    {
        match self {
            TransferError::NoFrames => "Oci.GetLayer yielded no frames".to_owned(),
            TransferError::TooFewFds { dir_count, got } => {
                let mut out: String = "Oci.GetLayer: expected at least ".to_owned();
                out.append(text::decimal(*dir_count as u64 + 2).as_str());
                out.append(" fds (1 pipe + ");
                out.append(text::decimal(*dir_count as u64).as_str());
                out.append(" dirfd slots + 1 keepalive), got ");
                out.append(text::decimal(*got as u64).as_str());
                out
            },
        }
    }
}

/// The file descriptors of a layer.
#[derive(Debug)]
pub struct LayerFds<F> {
    /// The read end of the pipe that carries the stream.
    pub pipe_read: F,
    /// The directory slots.
    pub dir_fds: Vec<F>,
    /// What has to be held open until the stream is drained.
    pub lifetime_fds: Vec<F>,
}

/// The frames of a reply to `GetLayer` so far.
#[derive(Debug)]
pub struct LayerFrames<F> {
    fds: Vec<F>,
    reply: Option<GetLayerReply>,
}

impl<F> LayerFrames<F> {
    /// The file descriptors of all frames, in arrival order.
    pub closed spec fn fds(self) -> Seq<F> {
        self.fds@
    }

    /// The reply in the last frame.
    pub closed spec fn reply(self) -> Option<GetLayerReply> {
        self.reply
    }

    /// No frames yet.
    pub fn new() -> (frames: LayerFrames<F>)
        ensures
            frames.fds() == Seq::<F>::empty(),
            frames.reply() is None,
    {
        LayerFrames { fds: Vec::new(), reply: None }
    }

    /// Takes in a frame: its file descriptors come after those of the frames
    /// before it, and its reply replaces theirs.
    pub fn push(&mut self, reply: GetLayerReply, frame_fds: Vec<F>)
        ensures
            final(self).fds() == old(self).fds() + frame_fds@,
            final(self).reply() == Some(reply),
    {
        let mut frame_fds = frame_fds;
        self.fds.append(&mut frame_fds);
        self.reply = Some(reply);
    }

    /// Splits the file descriptors: the pipe, the directory slots, and the rest,
    /// of which there must be at least one.
    pub fn finish(self) -> (fds: Result<LayerFds<F>, TransferError>)
        ensures
            match fds {
                Ok(f) => {
                    &&& self.reply() matches Some(reply)
                    &&& self.fds().len() >= reply.dir_count + 2
                    &&& f.dir_fds@.len() == reply.dir_count
                    &&& seq![f.pipe_read] + f.dir_fds@ + f.lifetime_fds@ == self.fds()
                },
                Err(TransferError::NoFrames) => self.reply() is None,
                Err(TransferError::TooFewFds { dir_count, got }) => {
                    &&& self.reply() == Some(GetLayerReply { dir_count })
                    &&& self.fds().len() == got
                    &&& got < dir_count + 2
                },
            },
    {
        let LayerFrames { fds, reply } = self;
        let mut fds = fds;
        match reply {
            None => Err(TransferError::NoFrames),
            Some(reply) => {
                let got: usize = fds.len();
                if (got as u64) < reply.dir_count as u64 + 2 {
                    return Err(TransferError::TooFewFds { dir_count: reply.dir_count, got });
                }
                let slots: usize = reply.dir_count as usize;
                let lifetime_fds: Vec<F> = fds.split_off(slots + 1);
                let dir_fds: Vec<F> = fds.split_off(1);
                let pipe_read: F = fds.remove(0);
                assert(seq![pipe_read] + dir_fds@ + lifetime_fds@ =~= self.fds());
                Ok(LayerFds { pipe_read, dir_fds, lifetime_fds })
            },
        }
    }
}

/// What an error about the frames of a layer says: how many file descriptors there should
/// have been, and how many there were.
pub proof fn transfer_messages_tell_what_is_wrong(dir_count: u32, got: usize)
    ensures
        TransferError::NoFrames.text() == "Oci.GetLayer yielded no frames"@,
        (TransferError::TooFewFds { dir_count, got }).text() == "Oci.GetLayer: expected at least "@
            + text::decimal_text(dir_count as nat + 2) + " fds (1 pipe + "@ + text::decimal_text(
            dir_count as nat,
        ) + " dirfd slots + 1 keepalive), got "@ + text::decimal_text(got as nat),
{
}

} // verus!
