//! Images: how one is referred to, where it is kept, what its manifest
//! says, and what making, listing, transporting and running one take.

use vstd::prelude::*;
use vstd::string::*;

use crate::chunking::{
    chunk_name, chunk_views, is_split_plan, splits, ChunkGroup, ChunkInfo, ChunkMetadata,
    FileChunker, FileEntry,
};
use crate::config::{join_path, path_under, Config};
use crate::error::{Error, Result};
use crate::plan::{copy_file, create_dir, no_steps, plan, push_step, steps, Step, StepView};
use crate::strmap::{mapping, put, StrMap};
use crate::text::{
    contains, contains_str, decimal, ends_with, find, first_match, from_chars, has_prefix,
    has_suffix, join, join_with, match_at, pair, replace_char, replace_char_spec, same_chars,
    same_text, slice, split, split_on, starts_with, to_chars, to_decimal, trim, trimmed, views_of,
    wrap,
};
use crate::util::{args, cmd, command, no_args, push_arg, strs, Command};
use crate::vm::{resize, resize_command, Assets, UserData, VmResources, VmResult};

verus! {

/// How a VM is run from an image.
pub struct RunOptions<'a> {
    /// The name of the VM; one is made up where none is given.
    pub vm_name: Option<&'a str>,
    /// The registry, where the image reference names none.
    pub registry: Option<&'a str>,
    /// The organisation, where the image reference names none.
    pub org: Option<&'a str>,
    /// The file to take the user-data from.
    pub user_data_path: Option<&'a str>,
    /// Create the VM without starting it.
    pub no_start: bool,
    /// The VM's resources.
    pub resources: VmResources,
}

/// What is listed of an image.
#[derive(Debug, Clone)]
pub struct ImageInfo {
    /// The image's name.
    pub name: String,
    /// The image's tag.
    pub tag: String,
    /// The registry that the image belongs to.
    pub registry: String,
    /// The size of the image's artifacts, as it is shown.
    pub size: String,
    /// When the image was created, as it is shown.
    pub created: String,
}

/// The outcome of an operation on an image, as it is reported.
#[derive(Debug, Clone)]
pub struct ImageResult {
    /// Whether the operation did what was asked.
    pub success: bool,
    /// What is said of it.
    pub message: String,
}

/// What an image directory says of its image.
#[derive(Debug, Clone)]
pub struct ImageManifest {
    /// The image's name.
    pub name: String,
    /// The image's tag.
    pub tag: String,
    /// The registry that the image belongs to.
    pub registry: String,
    /// The organisation that the image belongs to.
    pub org: String,
    /// The image's files, by the role of each.
    pub artifacts: StrMap,
    /// What else is known of the image.
    pub metadata: StrMap,
    /// When the image was created, in seconds since the epoch.
    pub created: u64,
}

/// A reference to an image.
#[derive(Debug, Clone)]
pub struct ImageRef {
    /// The registry.
    pub registry: String,
    /// The organisation.
    pub org: String,
    /// The image's name.
    pub name: String,
    /// The image's tag.
    pub tag: String,
}

/// A reference to an image as the contracts see it.
pub struct ImageRefView {
    /// The registry.
    pub registry: Seq<char>,
    /// The organisation.
    pub org: Seq<char>,
    /// The image's name.
    pub name: Seq<char>,
    /// The image's tag.
    pub tag: Seq<char>,
}

impl View for ImageRef {
    type V = ImageRefView;

    open spec fn view(&self) -> ImageRefView {
        ImageRefView { registry: self.registry@, org: self.org@, name: self.name@, tag: self.tag@ }
    }
}

/// The name in `name_tag`: what stands before its first colon, or all of it
/// where it has none.
pub open spec fn name_part(name_tag: Seq<char>) -> Seq<char> {
    if exists|i: int| first_match(name_tag, ":"@, i) {
        name_tag.subrange(0, choose|i: int| first_match(name_tag, ":"@, i))
    } else {
        name_tag
    }
}

/// The tag in `name_tag`: what follows its first colon, or `latest` where it
/// has none.
pub open spec fn tag_part(name_tag: Seq<char>) -> Seq<char> {
    if exists|i: int| first_match(name_tag, ":"@, i) {
        name_tag.subrange(
            (choose|i: int| first_match(name_tag, ":"@, i)) + ":"@.len(),
            name_tag.len() as int,
        )
    } else {
        "latest"@
    }
}

/// `token` stands for a registry: it has a dot in it, or is `ghcr.io`.
pub open spec fn names_registry(token: Seq<char>) -> bool {
    contains_str(token, "."@) || token == "ghcr.io"@
}

/// What the reference `image` refers to. It is `name`, `org/name` or
/// `registry/org/name`, each with `:tag` behind it or without. Of two parts
/// the first is the registry if it stands for one, with the default
/// organisation, and else the organisation, with the default registry. More
/// than three parts refer to nothing.
pub open spec fn parse_ref(
    image: Seq<char>,
    default_registry: Seq<char>,
    default_org: Seq<char>,
) -> Option<ImageRefView> {
    let parts = split_on(image, '/');
    if parts.len() == 1 {
        Some(
            ImageRefView {
                registry: default_registry,
                org: default_org,
                name: name_part(parts[0]),
                tag: tag_part(parts[0]),
            },
        )
    } else if parts.len() == 2 {
        if names_registry(parts[0]) {
            Some(
                ImageRefView {
                    registry: parts[0],
                    org: default_org,
                    name: name_part(parts[1]),
                    tag: tag_part(parts[1]),
                },
            )
        } else {
            Some(
                ImageRefView {
                    registry: default_registry,
                    org: parts[0],
                    name: name_part(parts[1]),
                    tag: tag_part(parts[1]),
                },
            )
        }
    } else if parts.len() == 3 {
        Some(
            ImageRefView {
                registry: parts[0],
                org: parts[1],
                name: name_part(parts[2]),
                tag: tag_part(parts[2]),
            },
        )
    } else {
        None
    }
}

/// The reference as it is written in full.
pub open spec fn url_text(r: ImageRefView) -> Seq<char> {
    r.registry + "/"@ + r.org + "/"@ + r.name + ":"@ + r.tag
}

/// Where the image is kept under the asset directory `asset_dir`: under
/// `images`, then the registry with its dots made underscores, the
/// organisation, the name and the tag.
pub open spec fn local_dir_text(asset_dir: Seq<char>, r: ImageRefView) -> Seq<char> {
    path_under(
        path_under(
            path_under(
                path_under(path_under(asset_dir, "images"@), replace_char_spec(r.registry, '.', '_')),
                r.org,
            ),
            r.name,
        ),
        r.tag,
    )
}

/// The name and the tag in `name_tag`.
fn split_name_tag(name_tag: &Vec<char>) -> (r: (String, String))
    ensures
        r.0@ == name_part(name_tag@),
        r.1@ == tag_part(name_tag@),
{
    let colon = to_chars(":");
    match find(name_tag, &colon) {
        Some(i) => {
            let ghost i0 = choose|i: int| first_match(name_tag@, ":"@, i);
            assert(i0 == i);
            assert(match_at(name_tag@, colon@, i as int));
            assert(i + colon@.len() <= name_tag@.len());
            assert(i + colon.len() <= name_tag.len());
            (
                from_chars(&slice(name_tag, 0, i)),
                from_chars(&slice(name_tag, i + colon.len(), name_tag.len())),
            )
        },
        None => {
            assert forall|i: int| !first_match(name_tag@, ":"@, i) by {
                if first_match(name_tag@, ":"@, i) {
                    assert(match_at(name_tag@, ":"@, i));
                }
            }
            (from_chars(name_tag), String::from_str("latest"))
        },
    }
}

impl ImageRef {
    /// Reads the reference `image`, taking `default_registry` and
    /// `default_org` for what it does not name. A reference of more than
    /// three parts is no image name.
    pub fn parse(image: &str, default_registry: &str, default_org: &str) -> (r: Result<Self>)
        ensures
            match r {
                Ok(x) => parse_ref(image@, default_registry@, default_org@) == Some(x@),
                Err(e) => parse_ref(image@, default_registry@, default_org@) is None && (
                e matches Error::InvalidImageName(n) && n@ == image@),
            },
    {
        let parts = split(&to_chars(image), '/');
        let ghost views = views_of(parts@);
        if parts.len() == 1 {
            assert(views[0] == parts@[0]@);
            let (name, tag) = split_name_tag(&parts[0]);
            Ok(
                ImageRef {
                    registry: String::from_str(default_registry),
                    org: String::from_str(default_org),
                    name,
                    tag,
                },
            )
        } else if parts.len() == 2 {
            assert(views[0] == parts@[0]@);
            assert(views[1] == parts@[1]@);
            let (name, tag) = split_name_tag(&parts[1]);
            let first = from_chars(&parts[0]);
            if contains(&parts[0], &to_chars(".")) || same_chars(&parts[0], &to_chars("ghcr.io")) {
                Ok(ImageRef { registry: first, org: String::from_str(default_org), name, tag })
            } else {
                Ok(ImageRef { registry: String::from_str(default_registry), org: first, name, tag })
            }
        } else if parts.len() == 3 {
            assert(views[0] == parts@[0]@);
            assert(views[1] == parts@[1]@);
            assert(views[2] == parts@[2]@);
            let (name, tag) = split_name_tag(&parts[2]);
            Ok(
                ImageRef {
                    registry: from_chars(&parts[0]),
                    org: from_chars(&parts[1]),
                    name,
                    tag,
                },
            )
        } else {
            Err(Error::InvalidImageName(String::from_str(image)))
        }
    }

    /// The reference as it is written in full.
    pub fn url(&self) -> (r: String)
        ensures
            r@ == url_text(self@),
    {
        let mut r = self.registry.clone();
        r.append("/");
        r.append(self.org.as_str());
        r.append("/");
        r.append(self.name.as_str());
        r.append(":");
        r.append(self.tag.as_str());
        r
    }

    /// Where the image is kept.
    pub fn local_dir(&self, config: &Config) -> (r: String)
        ensures
            r@ == local_dir_text(config.asset_dir@, self@),
    {
        let registry = from_chars(&replace_char(&to_chars(self.registry.as_str()), '.', '_'));
        let a = join_path(config.asset_dir.as_str(), "images");
        let b = join_path(a.as_str(), registry.as_str());
        let c = join_path(b.as_str(), self.org.as_str());
        let d = join_path(c.as_str(), self.name.as_str());
        join_path(d.as_str(), self.tag.as_str())
    }
}

/// The hundredths of a mebibyte that `bytes` bytes come to, rounded to the
/// nearest, and to the even one of two that are equally near.
pub open spec fn hundredths_of_mib(bytes: u64) -> nat {
    let scaled = bytes as nat * 100;
    let whole = scaled / 1048576;
    let rest = scaled % 1048576;
    if rest > 524288 || (rest == 524288 && whole % 2 == 1) {
        whole + 1
    } else {
        whole
    }
}

/// A size in mebibytes with two decimals, as it is shown.
pub open spec fn mib_text(bytes: u64) -> Seq<char> {
    let h = hundredths_of_mib(bytes);
    decimal(h / 100) + "."@ + decimal((h % 100) / 10) + decimal(h % 10) + " MB"@
}

/// The size of `bytes` bytes in mebibytes with two decimals, as it is shown.
pub fn format_size(bytes: u64) -> (r: String)
    ensures
        r@ == mib_text(bytes),
{
    let scaled: u128 = (bytes as u128) * 100;
    let whole: u128 = scaled / 1048576;
    let rest: u128 = scaled % 1048576;
    let h: u128 = if rest > 524288 || (rest == 524288 && whole % 2 == 1) {
        whole + 1
    } else {
        whole
    };
    assert(h == hundredths_of_mib(bytes));
    assert(h / 100 <= u64::MAX);
    let mut r = to_decimal((h / 100) as u64);
    r.append(".");
    r.append(to_decimal(((h % 100) / 10) as u64).as_str());
    r.append(to_decimal((h % 10) as u64).as_str());
    r.append(" MB");
    r
}

/// The sizes together, those of files that are not there left out; the sum
/// stops at the largest number that fits.
pub open spec fn sum_sizes(sizes: Seq<Option<u64>>) -> nat
    decreases sizes.len(),
{
    if sizes.len() == 0 {
        0
    } else {
        sum_sizes(sizes.drop_last()) + (match sizes.last() {
            Some(n) => n as nat,
            None => 0,
        })
    }
}

/// The size of an image: the sizes of its artifacts together. `sizes` holds
/// the size of each artifact's file, where the file is there.
pub fn artifacts_size(sizes: &Vec<Option<u64>>) -> (r: u64)
    ensures
        r as nat == (if sum_sizes(sizes@) <= u64::MAX {
            sum_sizes(sizes@)
        } else {
            u64::MAX as nat
        }),
{
    let mut total: u64 = 0;
    let mut i: usize = 0;
    while i < sizes.len()
        invariant
            i <= sizes.len(),
            total as nat == (if sum_sizes(sizes@.subrange(0, i as int)) <= u64::MAX {
                sum_sizes(sizes@.subrange(0, i as int))
            } else {
                u64::MAX as nat
            }),
        decreases sizes.len() - i,
    {
        assert(sizes@.subrange(0, i + 1).drop_last() == sizes@.subrange(0, i as int));
        assert(sizes@.subrange(0, i + 1).last() == sizes@[i as int]);
        match sizes[i] {
            Some(n) => {
                total = if n > u64::MAX - total {
                    u64::MAX
                } else {
                    total + n
                };
            },
            None => {},
        }
        i += 1;
    }
    assert(sizes@.subrange(0, i as int) == sizes@);
    total
}

/// An image found in the image store.
#[derive(Debug, Clone)]
pub struct StoredImage {
    /// The name of the registry's directory.
    pub registry_dir: String,
    /// The image's manifest.
    pub manifest: ImageManifest,
    /// The size of each artifact's file, where the file is there.
    pub sizes: Vec<Option<u64>>,
    /// When the image was created, as it is shown.
    pub created: String,
}

/// What is listed of the stored image `s`: its name and tag, its registry
/// with the underscores of the directory's name made dots again, and the
/// size of its artifacts.
pub open spec fn lists_as(info: ImageInfo, s: StoredImage) -> bool {
    &&& info.name@ == s.manifest.name@
    &&& info.tag@ == s.manifest.tag@
    &&& info.registry@ == replace_char_spec(s.registry_dir@, '_', '.')
    &&& info.size@ == mib_text(
        (if sum_sizes(s.sizes@) <= u64::MAX {
            sum_sizes(s.sizes@)
        } else {
            u64::MAX as nat
        }) as u64,
    )
    &&& info.created@ == s.created@
}

/// What is listed of the images found in the store, one entry for each, in
/// their order.
pub fn list(stored: &Vec<StoredImage>) -> (r: Vec<ImageInfo>)
    ensures
        r.len() == stored.len(),
        forall|i: int| 0 <= i < r.len() ==> lists_as(#[trigger] r@[i], stored@[i]),
{
    let mut r: Vec<ImageInfo> = Vec::new();
    let mut i: usize = 0;
    while i < stored.len()
        invariant
            i <= stored.len(),
            r.len() == i,
            forall|j: int| 0 <= j < i ==> lists_as(#[trigger] r@[j], stored@[j]),
        decreases stored.len() - i,
    {
        let s = &stored[i];
        let registry = from_chars(&replace_char(&to_chars(s.registry_dir.as_str()), '_', '.'));
        r.push(
            ImageInfo {
                name: s.manifest.name.clone(),
                tag: s.manifest.tag.clone(),
                registry,
                size: format_size(artifacts_size(&s.sizes)),
                created: s.created.clone(),
            },
        );
        i += 1;
    }
    r
}

/// `name` with its hyphens and dots made underscores.
pub open spec fn sanitized(name: Seq<char>) -> Seq<char> {
    replace_char_spec(replace_char_spec(name, '-', '_'), '.', '_')
}

/// The role that a file's name gives it in an image: a name with `base` in
/// it, or one that ends in `.raw`, is the base image; else one with `fw` in
/// it is the firmware; else one with `cloud-hypervisor` and without `remote`
/// in it is the hypervisor; else one with `ch-remote` in it is the
/// hypervisor's remote control; any other name is its own role, with its
/// hyphens and dots made underscores.
pub open spec fn role_of(name: Seq<char>) -> Seq<char> {
    if contains_str(name, "base"@) || ends_with(name, ".raw"@) {
        "base_image"@
    } else if contains_str(name, "hypervisor-fw"@) || contains_str(name, "fw"@) {
        "firmware"@
    } else if contains_str(name, "cloud-hypervisor"@) && !contains_str(name, "remote"@) {
        "hypervisor"@
    } else if contains_str(name, "ch-remote"@) {
        "ch_remote"@
    } else {
        sanitized(name)
    }
}

/// The name under which the file of the role `role` is kept in an image: a
/// fixed name for each of the four known roles, and the file's own name
/// `name` for any other.
pub open spec fn canonical_name(role: Seq<char>, name: Seq<char>) -> Seq<char> {
    if role == "base_image"@ {
        "base.raw"@
    } else if role == "firmware"@ {
        "hypervisor-fw"@
    } else if role == "hypervisor"@ {
        "cloud-hypervisor"@
    } else if role == "ch_remote"@ {
        "ch-remote"@
    } else {
        name
    }
}

/// A file of this name is one chunk of a file.
pub open spec fn is_chunk_file(name: Seq<char>) -> bool {
    contains_str(name, ".chunk."@)
}

/// A file of this name is no artifact: it ends in `.json` or begins with `sha256:`.
pub open spec fn is_skipped(name: Seq<char>) -> bool {
    ends_with(name, ".json"@) || starts_with(name, "sha256:"@)
}

/// Whether `hay` has `needle` in it.
fn includes(hay: &Vec<char>, needle: &str) -> (r: bool)
    ensures
        r == contains_str(hay@, needle@),
{
    contains(hay, &to_chars(needle))
}

/// The role that a file's name gives it in an image.
pub fn artifact_role(name: &str) -> (r: String)
    ensures
        r@ == role_of(name@),
{
    let n = to_chars(name);
    if includes(&n, "base") || has_suffix(&n, &to_chars(".raw")) {
        String::from_str("base_image")
    } else if includes(&n, "hypervisor-fw") || includes(&n, "fw") {
        String::from_str("firmware")
    } else if includes(&n, "cloud-hypervisor") && !includes(&n, "remote") {
        String::from_str("hypervisor")
    } else if includes(&n, "ch-remote") {
        String::from_str("ch_remote")
    } else {
        from_chars(&replace_char(&replace_char(&n, '-', '_'), '.', '_'))
    }
}

/// The name under which the file of the role `role` is kept in an image.
pub fn canonical_file(role: &str, name: &str) -> (r: String)
    ensures
        r@ == canonical_name(role@, name@),
{
    if same_text(role, "base_image") {
        String::from_str("base.raw")
    } else if same_text(role, "firmware") {
        String::from_str("hypervisor-fw")
    } else if same_text(role, "hypervisor") {
        String::from_str("cloud-hypervisor")
    } else if same_text(role, "ch_remote") {
        String::from_str("ch-remote")
    } else {
        String::from_str(name)
    }
}

/// Whether a file of this name is one chunk of a file.
pub fn is_chunk_filename(name: &str) -> (r: bool)
    ensures
        r == is_chunk_file(name@),
{
    includes(&to_chars(name), ".chunk.")
}

/// Whether a file of this name is no artifact.
pub fn is_skipped_file(name: &str) -> (r: bool)
    ensures
        r == is_skipped(name@),
{
    let n = to_chars(name);
    has_suffix(&n, &to_chars(".json")) || has_prefix(&n, &to_chars("sha256:"))
}

/// A list of pairs of texts, to which `push` adds.
pub open spec fn pairs() -> Seq<(Seq<char>, Seq<char>)> {
    Seq::empty()
}

/// What a walk through downloaded files comes to.
pub struct Scan {
    /// The artifacts, by role.
    pub artifacts: Seq<(Seq<char>, Seq<char>)>,
    /// The files to copy: the path of each and the name of its copy.
    pub copies: Seq<(Seq<char>, Seq<char>)>,
}

/// The names of the files that the groups of chunks belong to.
pub open spec fn group_names(groups: Seq<ChunkGroup>) -> Seq<Seq<char>> {
    groups.map_values(|g: ChunkGroup| g.original_filename@)
}

/// What the downloaded `files` come to, in their order. Chunks and files
/// that are no artifacts are passed over. Of the others, each has the role
/// that its name gives it; a file whose role is taken already, or whose name
/// is that of a file put together from chunks, is passed over; any other is
/// copied under the name that its role prescribes, and takes the role.
pub open spec fn scan_files(files: Seq<FileEntry>, chunked: Seq<Seq<char>>) -> Scan
    decreases files.len(),
{
    if files.len() == 0 {
        Scan { artifacts: pairs(), copies: pairs() }
    } else {
        let before = scan_files(files.drop_last(), chunked);
        let f = files.last();
        let role = role_of(f.name@);
        if is_chunk_file(f.name@) || is_skipped(f.name@) || mapping(
            before.artifacts,
        ).dom().contains(role) || chunked.contains(f.name@) {
            before
        } else {
            Scan {
                artifacts: put(before.artifacts, role, canonical_name(role, f.name@)),
                copies: before.copies.push((f.path@, canonical_name(role, f.name@))),
            }
        }
    }
}

/// `artifacts` with the files put together from chunks: each takes the role
/// that its name gives it, under the name that the role prescribes.
pub open spec fn with_reassembled(
    artifacts: Seq<(Seq<char>, Seq<char>)>,
    chunked: Seq<Seq<char>>,
) -> Seq<(Seq<char>, Seq<char>)>
    decreases chunked.len(),
{
    if chunked.len() == 0 {
        artifacts
    } else {
        put(
            with_reassembled(artifacts, chunked.drop_last()),
            role_of(chunked.last()),
            canonical_name(role_of(chunked.last()), chunked.last()),
        )
    }
}

/// What is known of a pulled image: where it was pulled from and when, and,
/// where files were put together from chunks, that they were and which.
pub open spec fn pulled_metadata(url: Seq<char>, now: u64, chunked: Seq<Seq<char>>) -> Seq<
    (Seq<char>, Seq<char>),
> {
    let first = put(put(pairs(), "pulled_from"@, url), "pulled_at"@, decimal(now as nat));
    if chunked.len() == 0 {
        first
    } else {
        put(
            put(first, "chunked_files"@, join_with(chunked, ","@)),
            "reassembled_from_chunks"@,
            "true"@,
        )
    }
}

/// What becomes of downloaded files.
#[derive(Debug, Clone)]
pub struct Conversion {
    /// The files to put together from chunks: the name of each file, and the
    /// name under which it is kept in the image.
    pub reassembled: Vec<(String, String)>,
    /// The files to copy into the image: the path of each, and the name of its copy.
    pub copies: Vec<(String, String)>,
    /// The image's manifest.
    pub manifest: ImageManifest,
}

/// The pairs of `v` as the contracts see them.
pub open spec fn pair_views(v: Seq<(String, String)>) -> Seq<(Seq<char>, Seq<char>)> {
    v.map_values(|p: (String, String)| (p.0@, p.1@))
}

/// The manifest `m` is that of the image `r`, made at the time `now`.
pub open spec fn describes(m: ImageManifest, r: ImageRefView, now: u64) -> bool {
    &&& m.name@ == r.name
    &&& m.tag@ == r.tag
    &&& m.registry@ == r.registry
    &&& m.org@ == r.org
    &&& m.created == now
}

/// The names of the files that the groups of chunks belong to.
fn names_of(groups: &Vec<ChunkGroup>) -> (r: Vec<String>)
    ensures
        strs(r@) == group_names(groups@),
{
    let mut r = no_args();
    let mut i: usize = 0;
    while i < groups.len()
        invariant
            i <= groups.len(),
            strs(r@) == group_names(groups@).subrange(0, i as int),
        decreases groups.len() - i,
    {
        push_arg(&mut r, groups[i].original_filename.as_str());
        assert(group_names(groups@).subrange(0, i + 1) =~= group_names(groups@).subrange(
            0,
            i as int,
        ).push(groups@[i as int].original_filename@));
        i += 1;
    }
    assert(group_names(groups@).subrange(0, i as int) =~= group_names(groups@));
    r
}

/// What is known of a pulled image.
fn pull_metadata(image_ref: &ImageRef, now: u64, chunked: &Vec<String>) -> (r: StrMap)
    ensures
        r.pairs() == pulled_metadata(url_text(image_ref@), now, strs(chunked@)),
{
    let mut metadata = StrMap::new();
    metadata.insert(String::from_str("pulled_from"), image_ref.url());
    metadata.insert(String::from_str("pulled_at"), to_decimal(now));
    if chunked.len() > 0 {
        assert(chunked.deep_view() =~= strs(chunked@));
        metadata.insert(String::from_str("chunked_files"), join(chunked, ","));
        metadata.insert(String::from_str("reassembled_from_chunks"), String::from_str("true"));
    }
    metadata
}

/// Adds to `artifacts` the files put together from chunks.
fn add_reassembled(artifacts: &mut StrMap, chunked: &Vec<String>) -> (r: Vec<(String, String)>)
    ensures
        final(artifacts).pairs() == with_reassembled(old(artifacts).pairs(), strs(chunked@)),
        r.len() == chunked.len(),
        forall|i: int|
            0 <= i < r.len() ==> (#[trigger] r@[i]).0@ == chunked@[i]@ && r@[i].1@ == canonical_name(
                role_of(chunked@[i]@),
                chunked@[i]@,
            ),
{
    let mut r: Vec<(String, String)> = Vec::new();
    let mut i: usize = 0;
    assert(strs(chunked@).subrange(0, 0) =~= Seq::<Seq<char>>::empty());
    while i < chunked.len()
        invariant
            i <= chunked.len(),
            r.len() == i,
            artifacts.pairs() == with_reassembled(
                old(artifacts).pairs(),
                strs(chunked@).subrange(0, i as int),
            ),
            forall|j: int|
                0 <= j < i ==> (#[trigger] r@[j]).0@ == chunked@[j]@ && r@[j].1@ == canonical_name(
                    role_of(chunked@[j]@),
                    chunked@[j]@,
                ),
        decreases chunked.len() - i,
    {
        let name = &chunked[i];
        let ghost cur = strs(chunked@).subrange(0, i + 1);
        assert(cur.drop_last() == strs(chunked@).subrange(0, i as int));
        assert(cur.last() == name@);
        let role = artifact_role(name.as_str());
        let dest = canonical_file(role.as_str(), name.as_str());
        r.push((name.clone(), dest.clone()));
        artifacts.insert(role, dest);
        i += 1;
    }
    assert(strs(chunked@).subrange(0, i as int) == strs(chunked@));
    r
}

/// What becomes of the files that a pull has downloaded to `scan_dir`, so as
/// to make of them the image `image_ref` at the time `now`. `groups` are the
/// groups of chunks found there, and `files` all the regular files found
/// there and below. Where nothing is found that could be an artifact, the
/// conversion fails.
pub fn convert_oras_artifacts_to_meda(
    scan_dir: &str,
    groups: &Vec<ChunkGroup>,
    files: &Vec<FileEntry>,
    image_ref: &ImageRef,
    now: u64,
) -> (r: Result<Conversion>)
    ensures
        match r {
            Ok(c) => {
                let chunked = group_names(groups@);
                let scan = scan_files(files@, chunked);
                &&& with_reassembled(scan.artifacts, chunked).len() > 0
                &&& c.manifest.artifacts.pairs() == with_reassembled(scan.artifacts, chunked)
                &&& pair_views(c.copies@) == scan.copies
                &&& c.manifest.metadata.pairs() == pulled_metadata(
                    url_text(image_ref@),
                    now,
                    chunked,
                )
                &&& describes(c.manifest, image_ref@, now)
                &&& c.reassembled.len() == groups.len()
                &&& forall|i: int|
                    0 <= i < groups.len() ==> (#[trigger] c.reassembled@[i]).0@
                        == groups@[i].original_filename@ && c.reassembled@[i].1@ == canonical_name(
                        role_of(groups@[i].original_filename@),
                        groups@[i].original_filename@,
                    )
            },
            Err(e) => {
                &&& with_reassembled(
                    scan_files(files@, group_names(groups@)).artifacts,
                    group_names(groups@),
                ).len() == 0
                &&& e matches Error::Other(m) && m@ == "No valid artifacts found in "@ + scan_dir@
            },
        },
{
    let chunked = names_of(groups);
    let mut artifacts = StrMap::new();
    let mut copies: Vec<(String, String)> = Vec::new();
    let mut i: usize = 0;
    assert(pair_views(copies@) =~= pairs());
    assert(files@.subrange(0, 0) =~= Seq::<FileEntry>::empty());
    while i < files.len()
        invariant
            i <= files.len(),
            strs(chunked@) == group_names(groups@),
            artifacts.pairs() == scan_files(
                files@.subrange(0, i as int),
                group_names(groups@),
            ).artifacts,
            pair_views(copies@) == scan_files(
                files@.subrange(0, i as int),
                group_names(groups@),
            ).copies,
        decreases files.len() - i,
    {
        let f = &files[i];
        let ghost cur = files@.subrange(0, i + 1);
        assert(cur.drop_last() == files@.subrange(0, i as int));
        assert(cur.last() == *f);
        let name = f.name.as_str();
        if !is_chunk_filename(name) && !is_skipped_file(name) {
            let role = artifact_role(name);
            if !artifacts.contains_key(role.as_str()) && !crate::network::has_name(&chunked, name) {
                let dest = canonical_file(role.as_str(), name);
                let ghost before = pair_views(copies@);
                copies.push((f.path.clone(), dest.clone()));
                assert(pair_views(copies@) =~= before.push((f.path@, dest@)));
                artifacts.insert(role, dest);
            }
        }
        i += 1;
    }
    assert(files@.subrange(0, i as int) == files@);
    let reassembled = add_reassembled(&mut artifacts, &chunked);
    if artifacts.is_empty() {
        return Err(Error::Other(pair("No valid artifacts found in ", scan_dir)));
    }
    let metadata = pull_metadata(image_ref, now, &chunked);
    assert forall|i: int| 0 <= i < groups.len() implies (#[trigger] reassembled@[i]).0@
        == groups@[i].original_filename@ && reassembled@[i].1@ == canonical_name(
        role_of(groups@[i].original_filename@),
        groups@[i].original_filename@,
    ) by {
        assert(strs(chunked@)[i] == chunked@[i]@);
        assert(group_names(groups@)[i] == groups@[i].original_filename@);
    }
    Ok(
        Conversion {
            reassembled,
            copies,
            manifest: ImageManifest {
                name: image_ref.name.clone(),
                tag: image_ref.tag.clone(),
                registry: image_ref.registry.clone(),
                org: image_ref.org.clone(),
                artifacts,
                metadata,
                created: now,
            },
        },
    )
}

/// The role that a file's name gives it in an image directory, if it has one
/// there: as `role_of` says, but that a name which is its own role and ends
/// in `.json` has none.
pub open spec fn role_in_directory(name: Seq<char>) -> Option<Seq<char>> {
    if !is_known_name(name) && ends_with(name, ".json"@) {
        None
    } else {
        Some(role_of(name))
    }
}

/// The name `name` gives one of the four known roles.
pub open spec fn is_known_name(name: Seq<char>) -> bool {
    ||| contains_str(name, "base"@)
    ||| ends_with(name, ".raw"@)
    ||| contains_str(name, "hypervisor-fw"@)
    ||| contains_str(name, "fw"@)
    ||| (contains_str(name, "cloud-hypervisor"@) && !contains_str(name, "remote"@))
    ||| contains_str(name, "ch-remote"@)
}

/// The artifacts that the files of an image directory make up, in their
/// order: chunks and files without a role are passed over; each other file
/// takes its role under its own name, in the place of a file that had the
/// role before.
pub open spec fn directory_artifacts(files: Seq<FileEntry>) -> Seq<(Seq<char>, Seq<char>)>
    decreases files.len(),
{
    if files.len() == 0 {
        pairs()
    } else {
        let before = directory_artifacts(files.drop_last());
        let f = files.last();
        if is_chunk_file(f.name@) {
            before
        } else {
            match role_in_directory(f.name@) {
                Some(role) => put(before, role, f.name@),
                None => before,
            }
        }
    }
}

/// `artifacts` with the files put together from chunks whose roles are not
/// taken: each takes its role under the name that the role prescribes.
pub open spec fn with_missing(
    artifacts: Seq<(Seq<char>, Seq<char>)>,
    chunked: Seq<Seq<char>>,
) -> Seq<(Seq<char>, Seq<char>)>
    decreases chunked.len(),
{
    if chunked.len() == 0 {
        artifacts
    } else {
        let before = with_missing(artifacts, chunked.drop_last());
        let role = role_of(chunked.last());
        if mapping(before).dom().contains(role) {
            before
        } else {
            put(before, role, canonical_name(role, chunked.last()))
        }
    }
}

/// The manifest of the image `image_ref` for files that a pull has put in
/// the image's own directory `image_dir`, made at the time `now`. `groups`
/// are the groups of chunks found there, and `files` the regular files found
/// there once the chunked files are put together. Where nothing is found
/// that could be an artifact, there is no image to describe, and no manifest.
pub fn create_manifest_from_tag_directory(
    image_dir: &str,
    groups: &Vec<ChunkGroup>,
    files: &Vec<FileEntry>,
    image_ref: &ImageRef,
    now: u64,
) -> (r: Result<ImageManifest>)
    ensures
        match r {
            Ok(m) => {
                &&& with_missing(directory_artifacts(files@), group_names(groups@)).len() > 0
                &&& m.artifacts.pairs() == with_missing(
                    directory_artifacts(files@),
                    group_names(groups@),
                )
                &&& m.metadata.pairs() == pulled_metadata(
                    url_text(image_ref@),
                    now,
                    group_names(groups@),
                )
                &&& describes(m, image_ref@, now)
            },
            Err(e) => {
                &&& with_missing(directory_artifacts(files@), group_names(groups@)).len() == 0
                &&& (e matches Error::Other(t) && t@ == "No valid artifacts found in "@
                    + image_dir@)
            },
        },
{
    let chunked = names_of(groups);
    let mut artifacts = StrMap::new();
    let mut i: usize = 0;
    assert(files@.subrange(0, 0) =~= Seq::<FileEntry>::empty());
    while i < files.len()
        invariant
            i <= files.len(),
            artifacts.pairs() == directory_artifacts(files@.subrange(0, i as int)),
        decreases files.len() - i,
    {
        let f = &files[i];
        let ghost cur = files@.subrange(0, i + 1);
        assert(cur.drop_last() == files@.subrange(0, i as int));
        assert(cur.last() == *f);
        let name = f.name.as_str();
        if !is_chunk_filename(name) {
            let n = to_chars(name);
            let known = includes(&n, "base") || has_suffix(&n, &to_chars(".raw")) || includes(
                &n,
                "hypervisor-fw",
            ) || includes(&n, "fw") || (includes(&n, "cloud-hypervisor") && !includes(&n, "remote")) || includes(
                &n,
                "ch-remote",
            );
            if known || !has_suffix(&n, &to_chars(".json")) {
                artifacts.insert(artifact_role(name), String::from_str(name));
            }
        }
        i += 1;
    }
    assert(files@.subrange(0, i as int) == files@);
    let ghost scanned = artifacts.pairs();
    let mut k: usize = 0;
    assert(strs(chunked@).subrange(0, 0) =~= Seq::<Seq<char>>::empty());
    while k < chunked.len()
        invariant
            k <= chunked.len(),
            artifacts.pairs() == with_missing(scanned, strs(chunked@).subrange(0, k as int)),
        decreases chunked.len() - k,
    {
        let name = &chunked[k];
        let ghost cur = strs(chunked@).subrange(0, k + 1);
        assert(cur.drop_last() == strs(chunked@).subrange(0, k as int));
        assert(cur.last() == name@);
        let role = artifact_role(name.as_str());
        if !artifacts.contains_key(role.as_str()) {
            let dest = canonical_file(role.as_str(), name.as_str());
            artifacts.insert(role, dest);
        }
        k += 1;
    }
    assert(strs(chunked@).subrange(0, k as int) == strs(chunked@));
    if artifacts.is_empty() {
        return Err(Error::Other(pair("No valid artifacts found in ", image_dir)));
    }
    let metadata = pull_metadata(image_ref, now, &chunked);
    Ok(
        ImageManifest {
            name: image_ref.name.clone(),
            tag: image_ref.tag.clone(),
            registry: image_ref.registry.clone(),
            org: image_ref.org.clone(),
            artifacts,
            metadata,
            created: now,
        },
    )
}

/// The artifacts of a base image: each of the base disk, the firmware, the
/// hypervisor and its remote control that is there, under its fixed name.
pub open spec fn base_artifacts(have: Assets) -> Seq<(Seq<char>, Seq<char>)> {
    let a = if have.base_raw {
        put(pairs(), "base_image"@, "base.raw"@)
    } else {
        pairs()
    };
    let b = if have.firmware {
        put(a, "firmware"@, "hypervisor-fw"@)
    } else {
        a
    };
    let c = if have.hypervisor {
        put(b, "hypervisor"@, "cloud-hypervisor"@)
    } else {
        b
    };
    if have.ch_remote {
        put(c, "ch_remote"@, "ch-remote"@)
    } else {
        c
    }
}

/// The steps that fill the directory `dir` of a base image: create it, and
/// copy into it each asset that is there.
pub open spec fn base_steps(config: Config, dir: Seq<char>, have: Assets) -> Seq<StepView> {
    plan().push(StepView::CreateDir(dir)) + (if have.base_raw {
        plan().push(StepView::CopyFile(config.base_raw@, path_under(dir, "base.raw"@)))
    } else {
        plan()
    }) + (if have.firmware {
        plan().push(StepView::CopyFile(config.fw_bin@, path_under(dir, "hypervisor-fw"@)))
    } else {
        plan()
    }) + (if have.hypervisor {
        plan().push(StepView::CopyFile(config.ch_bin@, path_under(dir, "cloud-hypervisor"@)))
    } else {
        plan()
    }) + (if have.ch_remote {
        plan().push(StepView::CopyFile(config.cr_bin@, path_under(dir, "ch-remote"@)))
    } else {
        plan()
    })
}

/// What is known of a base image.
pub open spec fn base_metadata() -> Seq<(Seq<char>, Seq<char>)> {
    put(
        put(put(put(pairs(), "os"@, "ubuntu"@), "arch"@, "amd64"@), "version"@, "jammy"@),
        "created_by"@,
        "meda"@,
    )
}

/// An image in the making: the steps that fill its directory, the manifest
/// to write there, and what is said when that is done.
#[derive(Debug, Clone)]
pub struct NewImage {
    /// The steps that fill the image's directory.
    pub steps: Vec<Step>,
    /// The manifest to write into the directory.
    pub manifest: ImageManifest,
    /// What is said when the image is made.
    pub message: String,
}

/// The image made of the assets at hand, once those are made sure of:
/// `have` says which of them are there. The image gets its own copy of each,
/// and its manifest names them.
pub fn create_base_image(
    config: &Config,
    name: &str,
    tag: &str,
    registry: &str,
    org: &str,
    have: &Assets,
    now: u64,
) -> (r: NewImage)
    ensures
        ({
            let image = ImageRefView { registry: registry@, org: org@, name: name@, tag: tag@ };
            &&& steps(r.steps@) == base_steps(
                *config,
                local_dir_text(config.asset_dir@, image),
                *have,
            )
            &&& describes(r.manifest, image, now)
            &&& r.manifest.artifacts.pairs() == base_artifacts(*have)
            &&& r.manifest.metadata.pairs() == base_metadata()
            &&& r.message@ == "Successfully created image: "@ + url_text(image)
        }),
{
    let image_ref = ImageRef {
        registry: String::from_str(registry),
        org: String::from_str(org),
        name: String::from_str(name),
        tag: String::from_str(tag),
    };
    let dir = image_ref.local_dir(config);
    let mut v = no_steps();
    let mut artifacts = StrMap::new();
    push_step(&mut v, create_dir(dir.as_str()));
    if have.base_raw {
        push_step(
            &mut v,
            copy_file(config.base_raw.as_str(), join_path(dir.as_str(), "base.raw").as_str()),
        );
        artifacts.insert(String::from_str("base_image"), String::from_str("base.raw"));
    }
    if have.firmware {
        push_step(
            &mut v,
            copy_file(config.fw_bin.as_str(), join_path(dir.as_str(), "hypervisor-fw").as_str()),
        );
        artifacts.insert(String::from_str("firmware"), String::from_str("hypervisor-fw"));
    }
    if have.hypervisor {
        push_step(
            &mut v,
            copy_file(config.ch_bin.as_str(), join_path(dir.as_str(), "cloud-hypervisor").as_str()),
        );
        artifacts.insert(String::from_str("hypervisor"), String::from_str("cloud-hypervisor"));
    }
    if have.ch_remote {
        push_step(
            &mut v,
            copy_file(config.cr_bin.as_str(), join_path(dir.as_str(), "ch-remote").as_str()),
        );
        artifacts.insert(String::from_str("ch_remote"), String::from_str("ch-remote"));
    }
    assert(steps(v@) =~= base_steps(*config, dir@, *have));
    let mut metadata = StrMap::new();
    metadata.insert(String::from_str("os"), String::from_str("ubuntu"));
    metadata.insert(String::from_str("arch"), String::from_str("amd64"));
    metadata.insert(String::from_str("version"), String::from_str("jammy"));
    metadata.insert(String::from_str("created_by"), String::from_str("meda"));
    let message = pair("Successfully created image: ", image_ref.url().as_str());
    NewImage {
        steps: v,
        manifest: ImageManifest {
            name: String::from_str(name),
            tag: String::from_str(tag),
            registry: String::from_str(registry),
            org: String::from_str(org),
            artifacts,
            metadata,
            created: now,
        },
        message,
    }
}

/// `name` is the name of one of the seed files that a snapshot keeps.
pub open spec fn is_seed_file(name: Seq<char>) -> bool {
    name == "user-data"@ || name == "meta-data"@ || name == "network-config"@
}

/// The seed files among `entries`, in their order.
pub open spec fn seed_files(entries: Seq<Seq<char>>) -> Seq<Seq<char>> {
    entries.filter(|n: Seq<char>| is_seed_file(n))
}

/// The copies that bring the seed files `names` from `vm_dir` to `dir`.
pub open spec fn seed_copies(vm_dir: Seq<char>, dir: Seq<char>, names: Seq<Seq<char>>) -> Seq<
    StepView,
>
    decreases names.len(),
{
    if names.len() == 0 {
        plan()
    } else {
        seed_copies(vm_dir, dir, names.drop_last()).push(
            StepView::CopyFile(path_under(vm_dir, names.last()), path_under(dir, names.last())),
        )
    }
}

/// `artifacts` with each of the seed files `names` under its own name.
pub open spec fn with_seed(artifacts: Seq<(Seq<char>, Seq<char>)>, names: Seq<Seq<char>>) -> Seq<
    (Seq<char>, Seq<char>),
>
    decreases names.len(),
{
    if names.len() == 0 {
        artifacts
    } else {
        put(with_seed(artifacts, names.drop_last()), names.last(), names.last())
    }
}

/// The steps that make an image of a VM: stop the VM if it runs, and let two
/// seconds pass; create the image's directory; copy the VM's disk into it as
/// the base image; and copy the seed files that the VM has.
pub open spec fn snapshot_steps(
    vm_name: Seq<char>,
    vm_dir: Seq<char>,
    dir: Seq<char>,
    running: bool,
    seeds: Seq<Seq<char>>,
) -> Seq<StepView> {
    (if running {
        crate::vm::halt_steps(vm_name, vm_dir).push(StepView::Sleep(2000))
    } else {
        plan()
    }).push(StepView::CreateDir(dir)).push(
        StepView::CopyFile(path_under(vm_dir, "rootfs.raw"@), path_under(dir, "base.raw"@)),
    ) + seed_copies(vm_dir, dir, seeds)
}

/// What is known of an image made of the VM `vm_name`.
pub open spec fn snapshot_metadata(vm_name: Seq<char>) -> Seq<(Seq<char>, Seq<char>)> {
    put(
        put(put(pairs(), "source_vm"@, vm_name), "created_by"@, "meda"@),
        "type"@,
        "vm_snapshot"@,
    )
}

/// The image made of the VM `vm_name`, at the time `now`. `entries` are the
/// names of what the VM's directory holds. Without its directory the VM is
/// not found, and without its disk there is nothing to make an image of. A
/// VM that runs is stopped first. The image gets the VM's disk as it is, and
/// the VM's seed files.
pub fn create_from_vm(
    config: &Config,
    vm_name: &str,
    image_name: &str,
    tag: &str,
    registry: &str,
    org: &str,
    vm_exists: bool,
    rootfs_exists: bool,
    running: bool,
    entries: &Vec<String>,
    now: u64,
) -> (r: Result<NewImage>)
    ensures
        !vm_exists ==> (r matches Err(Error::VmNotFound(n)) && n@ == vm_name@),
        vm_exists && !rootfs_exists ==> (r matches Err(Error::Other(m)) && m@ == "VM "@ + vm_name@
            + " rootfs not found"@),
        vm_exists && rootfs_exists ==> (r matches Ok(image) && {
            let to = ImageRefView { registry: registry@, org: org@, name: image_name@, tag: tag@ };
            let seeds = seed_files(strs(entries@));
            &&& steps(image.steps@) == snapshot_steps(
                vm_name@,
                path_under(config.vm_root@, vm_name@),
                local_dir_text(config.asset_dir@, to),
                running,
                seeds,
            )
            &&& describes(image.manifest, to, now)
            &&& image.manifest.artifacts.pairs() == with_seed(
                put(pairs(), "base_image"@, "base.raw"@),
                seeds,
            )
            &&& image.manifest.metadata.pairs() == snapshot_metadata(vm_name@)
            &&& image.message@ == "Successfully created image "@ + url_text(to) + " from VM "@
                + vm_name@
        }),
{
    if !vm_exists {
        return Err(Error::VmNotFound(String::from_str(vm_name)));
    }
    if !rootfs_exists {
        return Err(Error::Other(wrap("VM ", vm_name, " rootfs not found")));
    }
    let image_ref = ImageRef {
        registry: String::from_str(registry),
        org: String::from_str(org),
        name: String::from_str(image_name),
        tag: String::from_str(tag),
    };
    let vm_dir = config.vm_dir(vm_name);
    let dir = image_ref.local_dir(config);
    let mut v = no_steps();
    if running {
        crate::vm::push_halt(&mut v, vm_name, vm_dir.as_str());
        push_step(&mut v, Step::Sleep(2000));
    }
    push_step(&mut v, create_dir(dir.as_str()));
    push_step(
        &mut v,
        copy_file(
            join_path(vm_dir.as_str(), "rootfs.raw").as_str(),
            join_path(dir.as_str(), "base.raw").as_str(),
        ),
    );
    let mut artifacts = StrMap::new();
    artifacts.insert(String::from_str("base_image"), String::from_str("base.raw"));
    let ghost first = steps(v@);
    let ghost base = artifacts.pairs();
    let ghost names = strs(entries@);
    let mut i: usize = 0;
    assert(names.subrange(0, 0) =~= Seq::<Seq<char>>::empty());
    assert(seed_files(names.subrange(0, 0)) =~= Seq::<Seq<char>>::empty()) by {
        reveal(Seq::filter);
    }
    while i < entries.len()
        invariant
            i <= entries.len(),
            names == strs(entries@),
            steps(v@) == first + seed_copies(
                vm_dir@,
                dir@,
                seed_files(names.subrange(0, i as int)),
            ),
            artifacts.pairs() == with_seed(base, seed_files(names.subrange(0, i as int))),
        decreases entries.len() - i,
    {
        let name = entries[i].as_str();
        let ghost pre = names.subrange(0, i as int);
        let ghost cur = names.subrange(0, i + 1);
        assert(cur =~= pre.push(name@));
        proof {
            lemma_filter_push(pre, name@);
        }
        if same_text(name, "user-data") || same_text(name, "meta-data") || same_text(
            name,
            "network-config",
        ) {
            push_step(
                &mut v,
                copy_file(
                    join_path(vm_dir.as_str(), name).as_str(),
                    join_path(dir.as_str(), name).as_str(),
                ),
            );
            assert(seed_files(cur).drop_last() == seed_files(pre));
            assert(steps(v@) =~= first + seed_copies(vm_dir@, dir@, seed_files(cur)));
            artifacts.insert(String::from_str(name), String::from_str(name));
        }
        i += 1;
    }
    assert(names.subrange(0, i as int) == names);
    let mut metadata = StrMap::new();
    metadata.insert(String::from_str("source_vm"), String::from_str(vm_name));
    metadata.insert(String::from_str("created_by"), String::from_str("meda"));
    metadata.insert(String::from_str("type"), String::from_str("vm_snapshot"));
    let mut message = String::from_str("Successfully created image ");
    message.append(image_ref.url().as_str());
    message.append(" from VM ");
    message.append(vm_name);
    Ok(
        NewImage {
            steps: v,
            manifest: ImageManifest {
                name: String::from_str(image_name),
                tag: String::from_str(tag),
                registry: String::from_str(registry),
                org: String::from_str(org),
                artifacts,
                metadata,
                created: now,
            },
            message,
        },
    )
}

/// A snapshot keeps the user-data of its VM: where the VM's directory holds
/// a file `user-data`, the snapshot copies it into the image and the image's
/// manifest names it as the image's user-data, under that name.
pub proof fn law_snapshot_keeps_user_data(
    entries: Seq<Seq<char>>,
    vm_dir: Seq<char>,
    dir: Seq<char>,
)
    requires
        entries.contains("user-data"@),
    ensures
        seed_copies(vm_dir, dir, seed_files(entries)).contains(
            StepView::CopyFile(path_under(vm_dir, "user-data"@), path_under(dir, "user-data"@)),
        ),
        file_of_pairs(
            with_seed(put(pairs(), "base_image"@, "base.raw"@), seed_files(entries)),
            "user-data"@,
        ) == Some("user-data"@),
    decreases entries.len(),
{
    let base = put(pairs(), "base_image"@, "base.raw"@);
    let wanted = StepView::CopyFile(
        path_under(vm_dir, "user-data"@),
        path_under(dir, "user-data"@),
    );
    let k = choose|k: int| 0 <= k < entries.len() && entries[k] == "user-data"@;
    let init = entries.drop_last();
    let last = entries.last();
    let seeds = seed_files(entries);
    let earlier = seed_files(init);
    assert(entries == init.push(last));
    lemma_filter_push(init, last);
    if is_seed_file(last) {
        assert(seeds.drop_last() == earlier);
        assert(seeds.last() == last);
        crate::strmap::lemma_put(with_seed(base, earlier), last, last);
        let copies = seed_copies(vm_dir, dir, seeds);
        let before = seed_copies(vm_dir, dir, earlier);
        assert(copies == before.push(
            StepView::CopyFile(path_under(vm_dir, last), path_under(dir, last)),
        ));
        if last == "user-data"@ {
            assert(copies[copies.len() - 1] == wanted);
        } else {
            assert(init[k] == "user-data"@);
            law_snapshot_keeps_user_data(init, vm_dir, dir);
            let j = choose|j: int| 0 <= j < before.len() && before[j] == wanted;
            assert(copies[j] == wanted);
        }
    } else {
        assert(init[k] == "user-data"@);
        law_snapshot_keeps_user_data(init, vm_dir, dir);
    }
}

/// The file of the role `role` in the artifacts `artifacts`, if the role is taken.
pub open spec fn file_of_pairs(artifacts: Seq<(Seq<char>, Seq<char>)>, role: Seq<char>) -> Option<
    Seq<char>,
> {
    if mapping(artifacts).dom().contains(role) {
        Some(mapping(artifacts)[role])
    } else {
        None
    }
}

/// The seed files of a list with one more name: those of the list, and the
/// name if it is a seed file's.
pub proof fn lemma_filter_push(names: Seq<Seq<char>>, name: Seq<char>)
    ensures
        seed_files(names.push(name)) == (if is_seed_file(name) {
            seed_files(names).push(name)
        } else {
            seed_files(names)
        }),
{
    reveal(Seq::filter);
    assert(names.push(name).drop_last() == names);
}

/// The text given, or `fallback` where none is given.
pub open spec fn or_default(value: Option<&str>, fallback: Seq<char>) -> Seq<char> {
    match value {
        Some(v) => v@,
        None => fallback,
    }
}

/// Reads the reference `image` with the registry and the organisation given,
/// or `ghcr.io` and `cirunlabs` where they are not.
pub fn resolve(image: &str, registry: Option<&str>, org: Option<&str>) -> (r: Result<ImageRef>)
    ensures
        match r {
            Ok(x) => parse_ref(
                image@,
                or_default(registry, "ghcr.io"@),
                or_default(org, "cirunlabs"@),
            ) == Some(x@),
            Err(e) => parse_ref(
                image@,
                or_default(registry, "ghcr.io"@),
                or_default(org, "cirunlabs"@),
            ) is None && (e matches Error::InvalidImageName(n) && n@ == image@),
        },
{
    let r = match registry {
        Some(r) => r,
        None => "ghcr.io",
    };
    let o = match org {
        Some(o) => o,
        None => "cirunlabs",
    };
    ImageRef::parse(image, r, o)
}

/// What an operation on an image comes to before anything is done.
#[derive(Debug, Clone)]
pub enum Verdict<T> {
    /// Nothing is done; this is reported.
    Report(ImageResult),
    /// This is carried out.
    Proceed(T),
}

/// A pull that is to be carried out.
#[derive(Debug, Clone)]
pub struct Pull {
    /// The image to pull.
    pub image: ImageRef,
    /// Where the image is kept once it is pulled.
    pub image_dir: String,
    /// The directory that the registry client downloads to, and runs in.
    pub scratch: String,
    /// What is done first: make sure of the binaries, create the scratch directory.
    pub steps: Vec<Step>,
    /// The registry client's command.
    pub command: Command,
    /// What is done last, whatever the earlier steps, the client and the
    /// search came to: remove the scratch directory. A failure of it is
    /// passed over.
    pub cleanup: Vec<Step>,
}

/// The arguments with which the registry client pulls: the reference, the
/// directory to download to, the concurrency, the token as a password if
/// there is one, and `--no-tty` in machine mode or `--verbose` otherwise.
pub open spec fn pull_args(
    url: Seq<char>,
    scratch: Seq<char>,
    concurrency: u32,
    token: Option<&str>,
    json: bool,
) -> Seq<Seq<char>> {
    let first = args().push("pull"@).push(url).push("--output"@).push(scratch).push(
        "--allow-path-traversal"@,
    ).push("--concurrency"@).push(decimal(concurrency as nat));
    let second = match token {
        Some(t) => first.push("--username"@).push("token"@).push("--password"@).push(t@),
        None => first,
    };
    second.push(
        if json {
            "--no-tty"@
        } else {
            "--verbose"@
        },
    )
}

/// What pulling `image` comes to. An image that is held locally with its
/// manifest (`held`) is not pulled again, which is reported as a success.
/// Otherwise the registry client downloads to a scratch directory under
/// `temp_dir`, named after the time `now`.
pub fn pull(
    config: &Config,
    image: &str,
    registry: Option<&str>,
    org: Option<&str>,
    held: bool,
    temp_dir: &str,
    now: u64,
    token: Option<&str>,
    json: bool,
) -> (r: Result<Verdict<Pull>>)
    ensures
        ({
            let parsed = parse_ref(
                image@,
                or_default(registry, "ghcr.io"@),
                or_default(org, "cirunlabs"@),
            );
            match r {
                Err(e) => parsed is None && (e matches Error::InvalidImageName(n) && n@ == image@),
                Ok(Verdict::Report(v)) => held && parsed is Some && v.success && v.message@
                    == "Image "@ + url_text(parsed->Some_0) + " already exists locally"@,
                Ok(Verdict::Proceed(p)) => {
                    let scratch = path_under(temp_dir@, "meda-pull-"@ + decimal(now as nat));
                    &&& !held
                    &&& parsed == Some(p.image@)
                    &&& p.image_dir@ == local_dir_text(config.asset_dir@, p.image@)
                    &&& p.scratch@ == scratch
                    &&& steps(p.steps@) == plan().push(StepView::Bootstrap { full: false }).push(
                        StepView::CreateDir(scratch),
                    )
                    &&& steps(p.cleanup@) == plan().push(StepView::RemoveDir(scratch))
                    &&& p.command@ == cmd(
                        config.oras_bin@,
                        pull_args(
                            url_text(p.image@),
                            scratch,
                            match config.chunking.oras_pull_concurrency {
                                Some(n) => n,
                                None => config.chunking.oras_concurrency,
                            },
                            token,
                            json,
                        ),
                    )
                },
            }
        }),
{
    let image_ref = match resolve(image, registry, org) {
        Ok(x) => x,
        Err(e) => {
            return Err(e);
        },
    };
    let url = image_ref.url();
    if held {
        return Ok(
            Verdict::Report(
                ImageResult {
                    success: true,
                    message: wrap("Image ", url.as_str(), " already exists locally"),
                },
            ),
        );
    }
    let scratch = join_path(temp_dir, pair("meda-pull-", to_decimal(now).as_str()).as_str());
    let mut v = no_steps();
    push_step(&mut v, Step::Bootstrap { full: false });
    push_step(&mut v, create_dir(scratch.as_str()));
    let mut a = no_args();
    push_arg(&mut a, "pull");
    push_arg(&mut a, url.as_str());
    push_arg(&mut a, "--output");
    push_arg(&mut a, scratch.as_str());
    push_arg(&mut a, "--allow-path-traversal");
    push_arg(&mut a, "--concurrency");
    push_arg(&mut a, to_decimal(config.chunking.get_pull_concurrency() as u64).as_str());
    match token {
        Some(t) => {
            push_arg(&mut a, "--username");
            push_arg(&mut a, "token");
            push_arg(&mut a, "--password");
            push_arg(&mut a, t);
        },
        None => {},
    }
    push_arg(
        &mut a,
        if json {
            "--no-tty"
        } else {
            "--verbose"
        },
    );
    let image_dir = image_ref.local_dir(config);
    let mut cleanup = no_steps();
    push_step(&mut cleanup, Step::RemoveDir(scratch.clone()));
    Ok(
        Verdict::Proceed(
            Pull {
                image: image_ref,
                image_dir,
                scratch,
                steps: v,
                command: command(config.oras_bin.as_str(), a),
                cleanup,
            },
        ),
    )
}

/// What is said of a transfer that the registry client failed at: in
/// machine mode with what the client wrote, otherwise without.
pub open spec fn transfer_failure(what: Seq<char>, json: bool, stdout: Seq<char>, stderr: Seq<char>) -> Seq<
    char,
> {
    if json {
        "ORAS "@ + what + " failed:\nSTDOUT: "@ + stdout + "\nSTDERR: "@ + stderr
    } else {
        "ORAS "@ + what + " failed"@
    }
}

/// The failure of a transfer (`what` is `pull` or `push`) that the registry
/// client failed at.
pub fn transfer_failed(what: &str, json: bool, stdout: &str, stderr: &str) -> (e: Error)
    ensures
        e matches Error::TransportFailed(m) && m@ == transfer_failure(
            what@,
            json,
            stdout@,
            stderr@,
        ),
{
    let mut m = String::from_str("ORAS ");
    m.append(what);
    if json {
        m.append(" failed:\nSTDOUT: ");
        m.append(stdout);
        m.append("\nSTDERR: ");
        m.append(stderr);
    } else {
        m.append(" failed");
    }
    Error::TransportFailed(m)
}

/// Where a pull looks for what the registry client has downloaded.
#[derive(Debug, Clone)]
pub enum Source {
    /// In the scratch directory. If nothing is found, the search goes on.
    Scratch(String),
    /// In a directory that an earlier push has left behind. If something is
    /// found, the directory is removed afterwards; if not, the search goes on.
    Leftover(String),
    /// In the image's own directory, which only needs a manifest. The search ends here.
    TagDirectory(String),
    /// In a directory named after a digest. The search ends here.
    Digest(String),
}

/// A place to look as the contracts see it.
pub enum SourceView {
    /// In the scratch directory.
    Scratch(Seq<char>),
    /// In a directory that an earlier push has left behind.
    Leftover(Seq<char>),
    /// In the image's own directory.
    TagDirectory(Seq<char>),
    /// In a directory named after a digest.
    Digest(Seq<char>),
}

impl View for Source {
    type V = SourceView;

    open spec fn view(&self) -> SourceView {
        match *self {
            Source::Scratch(d) => SourceView::Scratch(d@),
            Source::Leftover(d) => SourceView::Leftover(d@),
            Source::TagDirectory(d) => SourceView::TagDirectory(d@),
            Source::Digest(d) => SourceView::Digest(d@),
        }
    }
}

/// The places of `v` as the contracts see them.
pub open spec fn sources(v: Seq<Source>) -> Seq<SourceView> {
    v.map_values(|s: Source| s@)
}

/// The directories among `names` that a push has left behind under `tmp`:
/// those whose names begin with `meda-push-chunks-`, in their order.
pub open spec fn leftovers(tmp: Seq<char>, names: Seq<Seq<char>>) -> Seq<SourceView>
    decreases names.len(),
{
    if names.len() == 0 {
        Seq::empty()
    } else if starts_with(names.last(), "meda-push-chunks-"@) {
        leftovers(tmp, names.drop_last()).push(SourceView::Leftover(path_under(tmp, names.last())))
    } else {
        leftovers(tmp, names.drop_last())
    }
}

/// The places where a pull looks, in this order: the scratch directory; the
/// directories that a push has left behind; and last the image's own
/// directory if it is there, or else the digest directory if there is one.
pub open spec fn places(
    scratch: Seq<char>,
    tmp: Seq<char>,
    tmp_dirs: Seq<Seq<char>>,
    image_dir: Seq<char>,
    image_dir_exists: bool,
    digest_dir: Option<&str>,
) -> Seq<SourceView> {
    let first = Seq::<SourceView>::empty().push(SourceView::Scratch(scratch)) + leftovers(
        tmp,
        tmp_dirs,
    );
    if image_dir_exists {
        first.push(SourceView::TagDirectory(image_dir))
    } else {
        match digest_dir {
            Some(d) => first.push(SourceView::Digest(d@)),
            None => first,
        }
    }
}

/// The places where a pull looks for what the registry client has
/// downloaded, in order. `tmp_dirs` are the names of the directories under
/// `tmp`, and `digest_dir` is the digest directory, if one was found. Where
/// no place yields anything, the pull fails as `pull_found_nothing` says.
pub fn pull_sources(
    scratch: &str,
    tmp: &str,
    tmp_dirs: &Vec<String>,
    image_dir: &str,
    image_dir_exists: bool,
    digest_dir: Option<&str>,
) -> (r: Vec<Source>)
    ensures
        sources(r@) == places(
            scratch@,
            tmp@,
            strs(tmp_dirs@),
            image_dir@,
            image_dir_exists,
            digest_dir,
        ),
{
    let mut r: Vec<Source> = Vec::new();
    r.push(Source::Scratch(String::from_str(scratch)));
    let ghost first = Seq::<SourceView>::empty().push(SourceView::Scratch(scratch@));
    assert(sources(r@) =~= first);
    let prefix = to_chars("meda-push-chunks-");
    let mut i: usize = 0;
    assert(strs(tmp_dirs@).subrange(0, 0) =~= Seq::<Seq<char>>::empty());
    while i < tmp_dirs.len()
        invariant
            i <= tmp_dirs.len(),
            prefix@ == "meda-push-chunks-"@,
            sources(r@) == first + leftovers(tmp@, strs(tmp_dirs@).subrange(0, i as int)),
        decreases tmp_dirs.len() - i,
    {
        let name = &tmp_dirs[i];
        let ghost cur = strs(tmp_dirs@).subrange(0, i + 1);
        assert(cur.drop_last() == strs(tmp_dirs@).subrange(0, i as int));
        assert(cur.last() == name@);
        if has_prefix(&to_chars(name.as_str()), &prefix) {
            let ghost before = sources(r@);
            r.push(Source::Leftover(join_path(tmp, name.as_str())));
            assert(sources(r@) =~= before.push(
                SourceView::Leftover(path_under(tmp@, name@)),
            ));
            assert(sources(r@) =~= first + leftovers(tmp@, cur));
        }
        i += 1;
    }
    assert(strs(tmp_dirs@).subrange(0, i as int) == strs(tmp_dirs@));
    let ghost middle = sources(r@);
    if image_dir_exists {
        r.push(Source::TagDirectory(String::from_str(image_dir)));
        assert(sources(r@) =~= middle.push(SourceView::TagDirectory(image_dir@)));
    } else {
        match digest_dir {
            Some(d) => {
                r.push(Source::Digest(String::from_str(d)));
                assert(sources(r@) =~= middle.push(SourceView::Digest(d@)));
            },
            None => {},
        }
    }
    r
}

/// What a pull does after it has looked in one place.
#[derive(Debug)]
pub enum Search {
    /// The place yielded the image: the search is over, and the pull has succeeded.
    Done,
    /// The place yielded nothing: look in the next place.
    TryNext,
    /// The search is over, and the pull fails with this.
    Fail(Error),
}

/// What a pull does after it has looked in the place at position `at` of
/// `sources`. `found` says whether the place yielded the image, and
/// `failure` is what went wrong there if it did not. A place that yields
/// ends the search. After an empty scratch directory or leftover directory
/// the search goes on to the next place. An empty image directory or digest
/// directory ends the search with what went wrong there. When no place is
/// left, the pull has found nothing and fails with that.
pub fn pull_step(sources: &Vec<Source>, at: usize, found: bool, failure: Error) -> (r: Search)
    ensures
        found ==> r is Done,
        !found && at < sources.len() && (sources@[at as int] is TagDirectory
            || sources@[at as int] is Digest) ==> r == Search::Fail(failure),
        !found && at < sources.len() && (sources@[at as int] is Scratch
            || sources@[at as int] is Leftover) && at + 1 < sources.len() ==> r is TryNext,
        !found && (at >= sources.len() || ((sources@[at as int] is Scratch
            || sources@[at as int] is Leftover) && at + 1 == sources.len())) ==> (r matches Search::Fail(
            e,
        ) && e matches Error::TransportFailed(m) && m@
            == "ORAS artifacts not found in expected SHA256 directory"@),
{
    if found {
        return Search::Done;
    }
    if at >= sources.len() {
        return Search::Fail(pull_found_nothing());
    }
    match &sources[at] {
        Source::TagDirectory(_) => Search::Fail(failure),
        Source::Digest(_) => Search::Fail(failure),
        _ => {
            if at + 1 < sources.len() {
                Search::TryNext
            } else {
                Search::Fail(pull_found_nothing())
            }
        },
    }
}

/// What is done once the place `source` has yielded the image: a directory
/// that an earlier push has left behind is removed, and a failure of that is
/// passed over; any other place is left as it is.
pub fn found_cleanup(source: &Source) -> (r: Vec<Step>)
    ensures
        steps(r@) == (match *source {
            Source::Leftover(dir) => plan().push(StepView::RemoveDir(dir@)),
            _ => plan(),
        }),
{
    let mut r = no_steps();
    match source {
        Source::Leftover(dir) => {
            push_step(&mut r, Step::RemoveDir(dir.clone()));
        },
        _ => {},
    }
    r
}

/// Whether a directory of this name is named after a digest.
pub fn is_digest_dir(name: &str) -> (r: bool)
    ensures
        r == contains_str(name@, "sha256"@),
{
    includes(&to_chars(name), "sha256")
}

/// The directory under which the digest directories of the image's
/// organisation are looked for.
pub fn digest_search_dir(config: &Config, image_ref: &ImageRef) -> (r: String)
    ensures
        r@ == path_under(
            path_under(
                path_under(config.asset_dir@, "images"@),
                replace_char_spec(image_ref.registry@, '.', '_'),
            ),
            image_ref.org@,
        ),
{
    let registry = from_chars(&replace_char(&to_chars(image_ref.registry.as_str()), '.', '_'));
    let a = join_path(config.asset_dir.as_str(), "images");
    let b = join_path(a.as_str(), registry.as_str());
    join_path(b.as_str(), image_ref.org.as_str())
}

/// The directories under which digest directories are looked for, in order:
/// that of the image's organisation under the asset directory, and, where
/// the home directory `home` is known, the same under the assets of the
/// older layout, `.ch-vms/assets`.
pub fn digest_search_dirs(config: &Config, home: Option<&str>, image_ref: &ImageRef) -> (r: Vec<
    String,
>)
    ensures
        strs(r@) == (match home {
            Some(h) => args().push(
                path_under(
                    path_under(
                        path_under(config.asset_dir@, "images"@),
                        replace_char_spec(image_ref.registry@, '.', '_'),
                    ),
                    image_ref.org@,
                ),
            ).push(
                path_under(
                    path_under(
                        path_under(
                            path_under(path_under(h@, ".ch-vms"@), "assets"@),
                            "images"@,
                        ),
                        replace_char_spec(image_ref.registry@, '.', '_'),
                    ),
                    image_ref.org@,
                ),
            ),
            None => args().push(
                path_under(
                    path_under(
                        path_under(config.asset_dir@, "images"@),
                        replace_char_spec(image_ref.registry@, '.', '_'),
                    ),
                    image_ref.org@,
                ),
            ),
        }),
{
    let mut r = no_args();
    push_arg(&mut r, digest_search_dir(config, image_ref).as_str());
    match home {
        Some(h) => {
            let registry = from_chars(
                &replace_char(&to_chars(image_ref.registry.as_str()), '.', '_'),
            );
            let a = join_path(h, ".ch-vms");
            let b = join_path(a.as_str(), "assets");
            let c = join_path(b.as_str(), "images");
            let d = join_path(c.as_str(), registry.as_str());
            push_arg(&mut r, join_path(d.as_str(), image_ref.org.as_str()).as_str());
        },
        None => {},
    }
    r
}

/// The failure of a pull that found nothing anywhere.
pub fn pull_found_nothing() -> (e: Error)
    ensures
        e matches Error::TransportFailed(m) && m@
            == "ORAS artifacts not found in expected SHA256 directory"@,
{
    Error::TransportFailed(
        String::from_str("ORAS artifacts not found in expected SHA256 directory"),
    )
}

/// What is said when the image `image_ref` is pulled.
pub fn pulled(image_ref: &ImageRef) -> (r: ImageResult)
    ensures
        r.success,
        r.message@ == "Successfully pulled image "@ + url_text(image_ref@),
{
    ImageResult {
        success: true,
        message: pair("Successfully pulled image ", image_ref.url().as_str()),
    }
}

/// A removal that is to be carried out.
#[derive(Debug, Clone)]
pub struct Removal {
    /// The image to remove.
    pub image: ImageRef,
    /// The directory to remove.
    pub dir: String,
    /// Whether to ask first.
    pub ask: bool,
}

/// What removing `image` comes to. An image that is not held locally
/// (`held`) cannot be removed: that is a failure, which in machine mode
/// (`json`) is reported and otherwise returned. Otherwise its directory is
/// removed, after asking unless `force` is given or in machine mode.
pub fn remove(
    config: &Config,
    image: &str,
    registry: Option<&str>,
    org: Option<&str>,
    force: bool,
    json: bool,
    held: bool,
) -> (r: Result<Verdict<Removal>>)
    ensures
        ({
            let parsed = parse_ref(
                image@,
                or_default(registry, "ghcr.io"@),
                or_default(org, "cirunlabs"@),
            );
            let text = "Image "@ + url_text(parsed->Some_0) + " not found locally"@;
            match r {
                Err(Error::InvalidImageName(n)) => parsed is None && n@ == image@,
                Err(Error::ImageNotFound(m)) => parsed is Some && !held && !json && m@ == text,
                Err(_) => false,
                Ok(Verdict::Report(v)) => parsed is Some && !held && json && !v.success
                    && v.message@ == text,
                Ok(Verdict::Proceed(x)) => {
                    &&& held
                    &&& parsed == Some(x.image@)
                    &&& x.dir@ == local_dir_text(config.asset_dir@, x.image@)
                    &&& x.ask == (!force && !json)
                },
            }
        }),
{
    let image_ref = match resolve(image, registry, org) {
        Ok(x) => x,
        Err(e) => {
            return Err(e);
        },
    };
    if !held {
        let message = wrap("Image ", image_ref.url().as_str(), " not found locally");
        if json {
            return Ok(Verdict::Report(ImageResult { success: false, message }));
        }
        return Err(Error::ImageNotFound(message));
    }
    let dir = image_ref.local_dir(config);
    Ok(Verdict::Proceed(Removal { image: image_ref, dir, ask: !force && !json }))
}

/// An answer that agrees: `y` or `yes`, in small or capital letters, white
/// space around it aside.
pub open spec fn agrees(answer: Seq<char>) -> bool {
    let t = trimmed(answer);
    ||| (t.len() == 1 && (t[0] == 'y' || t[0] == 'Y'))
    ||| (t.len() == 3 && (t[0] == 'y' || t[0] == 'Y') && (t[1] == 'e' || t[1] == 'E') && (t[2]
        == 's' || t[2] == 'S'))
}

/// Whether the answer to a question agrees.
pub fn is_confirmed(answer: &str) -> (r: bool)
    ensures
        r == agrees(answer@),
{
    let t = trim(&to_chars(answer));
    if t.len() == 1 {
        t[0] == 'y' || t[0] == 'Y'
    } else if t.len() == 3 {
        (t[0] == 'y' || t[0] == 'Y') && (t[1] == 'e' || t[1] == 'E') && (t[2] == 's' || t[2] == 'S')
    } else {
        false
    }
}

/// What is said when the image `image_ref`, of `bytes` bytes, is removed.
pub fn removed(image_ref: &ImageRef, bytes: u64) -> (r: ImageResult)
    ensures
        r.success,
        r.message@ == "Removed image "@ + url_text(image_ref@) + " ("@ + mib_text(bytes) + ")"@,
{
    let mut m = String::from_str("Removed image ");
    m.append(image_ref.url().as_str());
    m.append(" (");
    m.append(format_size(bytes).as_str());
    m.append(")");
    ImageResult { success: true, message: m }
}

/// What pruning comes to.
#[derive(Debug, Clone)]
pub enum Prune {
    /// Nothing is done and nothing reported: all images were to go, but
    /// neither was `force` given nor machine mode on.
    Hold,
    /// Nothing is removed; this is reported.
    Report(ImageResult),
    /// This directory is removed with all that is in it; then the result is reported.
    Remove(String, ImageResult),
}

/// What is said of a pruning that removed `count` images of `bytes` bytes.
pub open spec fn pruned_text(count: nat, bytes: u64) -> Seq<char> {
    "Removed "@ + decimal(count) + " image(s), freed "@ + mib_text(bytes)
}

/// What pruning comes to. Without the images' directory (`exists`) there is
/// nothing to prune. With `all`, every image goes, whether it is in use or
/// not: the images' directory is removed, which frees `bytes` bytes.
/// Without `all` nothing is removed.
pub fn prune(config: &Config, all: bool, force: bool, json: bool, exists: bool, bytes: u64) -> (r:
    Prune)
    ensures
        !exists ==> (r matches Prune::Report(v) && v.success && v.message@
            == "No images directory found"@),
        exists && all && !force && !json ==> r is Hold,
        exists && all && (force || json) ==> (r matches Prune::Remove(d, v) && d@ == path_under(
            config.asset_dir@,
            "images"@,
        ) && v.success && v.message@ == pruned_text(1, bytes)),
        exists && !all ==> (r matches Prune::Report(v) && v.success && v.message@ == pruned_text(
            0,
            0,
        )),
{
    if !exists {
        return Prune::Report(
            ImageResult { success: true, message: String::from_str("No images directory found") },
        );
    }
    if all {
        if !force && !json {
            return Prune::Hold;
        }
        let mut m = String::from_str("Removed ");
        m.append(to_decimal(1).as_str());
        m.append(" image(s), freed ");
        m.append(format_size(bytes).as_str());
        return Prune::Remove(
            join_path(config.asset_dir.as_str(), "images"),
            ImageResult { success: true, message: m },
        );
    }
    let mut m = String::from_str("Removed ");
    m.append(to_decimal(0).as_str());
    m.append(" image(s), freed ");
    m.append(format_size(0).as_str());
    Prune::Report(ImageResult { success: true, message: m })
}

/// How running a VM from an image begins.
#[derive(Debug, Clone)]
pub enum Prepare {
    /// The image is not held: pull it first. Nothing of the VM is made
    /// before the pull has succeeded.
    Pull(ImageRef),
    /// The image is held: load its manifest and go on.
    Load(ImageRef),
}

/// How running a VM from `image` begins: an image whose directory is not
/// there is pulled first, and one whose directory is there is loaded. A
/// reference that is no image name fails.
pub fn run_prepare(
    image: &str,
    registry: Option<&str>,
    org: Option<&str>,
    image_dir_exists: bool,
) -> (r: Result<Prepare>)
    ensures
        r is Err <==> parse_ref(
            image@,
            or_default(registry, "ghcr.io"@),
            or_default(org, "cirunlabs"@),
        ) is None,
        r matches Err(e) ==> (e matches Error::InvalidImageName(n) && n@ == image@),
        r matches Ok(Prepare::Pull(x)) ==> !image_dir_exists && parse_ref(
            image@,
            or_default(registry, "ghcr.io"@),
            or_default(org, "cirunlabs"@),
        ) == Some(x@),
        r matches Ok(Prepare::Load(x)) ==> image_dir_exists && parse_ref(
            image@,
            or_default(registry, "ghcr.io"@),
            or_default(org, "cirunlabs"@),
        ) == Some(x@),
{
    match resolve(image, registry, org) {
        Ok(x) => if image_dir_exists {
            Ok(Prepare::Load(x))
        } else {
            Ok(Prepare::Pull(x))
        },
        Err(e) => Err(e),
    }
}

/// How a run goes on after the pull that it began with: after a pull that
/// succeeded the image is loaded; a pull that failed ends the run with the
/// pull's failure, before anything of the VM is made.
pub fn run_pulled(image_ref: ImageRef, pulled: Result<()>) -> (r: Result<Prepare>)
    ensures
        match pulled {
            Ok(_) => r matches Ok(Prepare::Load(x)) && x == image_ref,
            Err(e) => r == Err::<Prepare, Error>(e),
        },
{
    match pulled {
        Ok(_) => Ok(Prepare::Load(image_ref)),
        Err(e) => Err(e),
    }
}

/// The name of a VM run from an image: the name given, or the image's name
/// and the time `now`.
pub open spec fn run_name(given: Option<&str>, image_name: Seq<char>, now: u64) -> Seq<char> {
    match given {
        Some(n) => n@,
        None => image_name + "-"@ + decimal(now as nat),
    }
}

/// The name of a VM run from the image named `image_name` at the time `now`:
/// the name given, or the image's name and the time.
pub fn run_vm_name(given: Option<&str>, image_name: &str, now: u64) -> (r: String)
    ensures
        r@ == run_name(given, image_name@, now),
{
    match given {
        Some(n) => String::from_str(n),
        None => wrap(image_name, "-", to_decimal(now).as_str()),
    }
}

/// The file of the role `role` in `artifacts`, if the role is taken.
pub open spec fn file_of(artifacts: StrMap, role: Seq<char>) -> Option<Seq<char>> {
    if artifacts@.dom().contains(role) {
        Some(artifacts@[role])
    } else {
        None
    }
}

/// The steps with which running a VM from an image begins: make sure of the
/// binaries, create the VM's directory, copy the image's base disk `base`
/// into it, bring the copy to the size asked for where that is not the
/// configured one, and copy the image's user-data `user_data`, if it has some.
pub open spec fn run_steps(
    config: Config,
    image_dir: Seq<char>,
    vm_dir: Seq<char>,
    base: Seq<char>,
    user_data: Option<Seq<char>>,
    resources: VmResources,
) -> Seq<StepView> {
    let rootfs = path_under(vm_dir, "rootfs.raw"@);
    let first = plan().push(StepView::Bootstrap { full: false }).push(
        StepView::CreateDir(vm_dir),
    ).push(StepView::CopyFile(path_under(image_dir, base), rootfs));
    let second = if resources.disk_size@ != config.disk_size@ {
        first.push(StepView::Run(resize_command(rootfs, resources.disk_size@)))
    } else {
        first
    };
    match user_data {
        Some(file) => second.push(
            StepView::CopyFile(path_under(image_dir, file), path_under(vm_dir, file)),
        ),
        None => second,
    }
}

/// A run that is to be carried out.
#[derive(Debug, Clone)]
pub struct Run {
    /// The name of the new VM.
    pub vm_name: String,
    /// The steps with which the run begins.
    pub steps: Vec<Step>,
    /// Whether the VM's directory then holds the image's user-data as `user-data`.
    pub user_data_kept: bool,
}

/// How running a VM from the image `image_ref`, with the manifest
/// `manifest`, begins. A VM whose directory exists is there already. An
/// image without a base image, or whose base image file is not there
/// (`base_exists`), cannot be run. The image's user-data is copied if its
/// file is there (`user_data_exists`); its meta-data and its network
/// configuration are never taken over. The rest follows once the VM's
/// subnet, TAP device and MAC address are chosen: see `provision`.
pub fn run_from_image(
    config: &Config,
    image_ref: &ImageRef,
    manifest: &ImageManifest,
    options: &RunOptions,
    vm_exists: bool,
    base_exists: bool,
    user_data_exists: bool,
    now: u64,
) -> (r: Result<Run>)
    ensures
        ({
            let name = run_name(options.vm_name, image_ref.name@, now);
            let base = file_of(manifest.artifacts, "base_image"@);
            let user_data = file_of(manifest.artifacts, "user-data"@);
            match r {
                Err(Error::VmAlreadyExists(n)) => vm_exists && n@ == name,
                Err(Error::Other(m)) => !vm_exists && (match base {
                    Some(file) => !base_exists && m@ == "Base image artifact '"@ + file
                        + "' not found in image"@,
                    None => m@ == "Image manifest missing base_image artifact"@,
                }),
                Err(_) => false,
                Ok(run) => {
                    &&& !vm_exists
                    &&& base is Some
                    &&& base_exists
                    &&& run.vm_name@ == name
                    &&& steps(run.steps@) == run_steps(
                        *config,
                        local_dir_text(config.asset_dir@, image_ref@),
                        path_under(config.vm_root@, name),
                        base->Some_0,
                        if user_data_exists {
                            user_data
                        } else {
                            None
                        },
                        options.resources,
                    )
                    &&& run.user_data_kept == (user_data_exists && user_data == Some(
                        "user-data"@,
                    ))
                },
            }
        }),
{
    let vm_name = run_vm_name(options.vm_name, image_ref.name.as_str(), now);
    if vm_exists {
        return Err(Error::VmAlreadyExists(vm_name));
    }
    let base = match manifest.artifacts.get("base_image") {
        Some(file) => file,
        None => {
            return Err(Error::Other(String::from_str("Image manifest missing base_image artifact")));
        },
    };
    if !base_exists {
        return Err(
            Error::Other(wrap("Base image artifact '", base.as_str(), "' not found in image")),
        );
    }
    let image_dir = image_ref.local_dir(config);
    let vm_dir = config.vm_dir(vm_name.as_str());
    let rootfs = join_path(vm_dir.as_str(), "rootfs.raw");
    let mut v = no_steps();
    push_step(&mut v, Step::Bootstrap { full: false });
    push_step(&mut v, create_dir(vm_dir.as_str()));
    push_step(
        &mut v,
        copy_file(join_path(image_dir.as_str(), base.as_str()).as_str(), rootfs.as_str()),
    );
    if !same_text(options.resources.disk_size.as_str(), config.disk_size.as_str()) {
        push_step(&mut v, Step::Run(resize(rootfs.as_str(), options.resources.disk_size.as_str())));
    }
    let mut kept = false;
    if user_data_exists {
        match manifest.artifacts.get("user-data") {
            Some(file) => {
                push_step(
                    &mut v,
                    copy_file(
                        join_path(image_dir.as_str(), file.as_str()).as_str(),
                        join_path(vm_dir.as_str(), file.as_str()).as_str(),
                    ),
                );
                kept = same_text(file.as_str(), "user-data");
            },
            None => {},
        }
    }
    Ok(Run { vm_name, steps: v, user_data_kept: kept })
}

/// Where the user-data of a VM run from an image comes from: the file given,
/// if one is; else the image's, if the VM's directory holds it; else the
/// default, with the password hash given.
pub fn run_user_data(user_data_path: Option<&str>, kept: bool, password_hash: &str) -> (r: UserData)
    ensures
        match r {
            UserData::File(p) => user_data_path matches Some(q) && p@ == q@,
            UserData::Kept => user_data_path is None && kept,
            UserData::Default(h) => user_data_path is None && !kept && h@ == password_hash@,
        },
{
    match user_data_path {
        Some(p) => UserData::File(String::from_str(p)),
        None => if kept {
            UserData::Kept
        } else {
            UserData::Default(String::from_str(password_hash))
        },
    }
}

/// How running a VM from an image ends: the VM is started unless it is to be
/// created only, and what was done is said.
pub fn run_finish(vm_name: &str, image_ref: &ImageRef, no_start: bool) -> (r: (Vec<Step>, VmResult))
    ensures
        steps(r.0@) == (if no_start {
            plan()
        } else {
            plan().push(StepView::Start(vm_name@))
        }),
        r.1.success,
        r.1.message@ == (if no_start {
            "Successfully created VM '"@ + vm_name@ + "' from image '"@ + url_text(image_ref@)
                + "' (not started)"@
        } else {
            "Successfully created and started VM '"@ + vm_name@ + "' from image '"@ + url_text(
                image_ref@,
            ) + "'"@
        }),
{
    let mut v = no_steps();
    let mut m = String::from_str(
        if no_start {
            "Successfully created VM '"
        } else {
            "Successfully created and started VM '"
        },
    );
    m.append(vm_name);
    m.append("' from image '");
    m.append(image_ref.url().as_str());
    if no_start {
        m.append("' (not started)");
    } else {
        m.append("'");
        push_step(&mut v, Step::Start(String::from_str(vm_name)));
    }
    (v, VmResult { success: true, message: m })
}

/// An image directory found in the image store.
#[derive(Debug, Clone)]
pub struct ImageEntry {
    /// The image's name: the name of the directory above the tag's.
    pub name: String,
    /// The path of the tag's directory.
    pub path: String,
}

/// The directory of the first of `entries` that has the name `name`.
pub open spec fn first_named(entries: Seq<ImageEntry>, name: Seq<char>) -> Option<Seq<char>>
    decreases entries.len(),
{
    if entries.len() == 0 {
        None
    } else if entries[0].name@ == name {
        Some(entries[0].path@)
    } else {
        first_named(entries.drop_first(), name)
    }
}

/// The directory of the local image `name`: of the image directories found
/// in the store, in the order of the walk, the first of that name wins.
pub fn find_local_image(entries: &Vec<ImageEntry>, name: &str) -> (r: Option<String>)
    ensures
        match r {
            Some(p) => first_named(entries@, name@) == Some(p@),
            None => first_named(entries@, name@) is None,
        },
{
    let mut i: usize = 0;
    assert(entries@.subrange(0, entries.len() as int) == entries@);
    while i < entries.len()
        invariant
            i <= entries.len(),
            first_named(entries@, name@) == first_named(
                entries@.subrange(i as int, entries.len() as int),
                name@,
            ),
        decreases entries.len() - i,
    {
        let ghost rest = entries@.subrange(i as int, entries.len() as int);
        assert(rest[0] == entries@[i as int]);
        assert(rest.drop_first() == entries@.subrange(i + 1, entries.len() as int));
        if same_text(entries[i].name.as_str(), name) {
            return Some(entries[i].path.clone());
        }
        i += 1;
    }
    None
}

/// What pushing the local image `name` to `image` comes to. `found` is the
/// manifest of the local image, if there is one. Without it the image is not
/// found. A dry run only says what would be pushed. Otherwise a token is
/// needed, and the push goes to the target returned.
pub fn push(
    name: &str,
    image: &str,
    registry: Option<&str>,
    dry_run: bool,
    found: Option<&ImageManifest>,
    token: Option<&str>,
) -> (r: Result<Verdict<ImageRef>>)
    ensures
        ({
            let parsed = parse_ref(image@, or_default(registry, "ghcr.io"@), "cirunlabs"@);
            match r {
                Err(Error::InvalidImageName(n)) => parsed is None && n@ == image@,
                Err(Error::ImageNotFound(m)) => parsed is Some && found is None && m@
                    == "Local image '"@ + name@ + "' not found"@,
                Err(Error::Other(m)) => parsed is Some && found is Some && !dry_run
                    && token is None && m@
                    == "GITHUB_TOKEN environment variable not set. Please set it with: export GITHUB_TOKEN=your_token"@,
                Err(_) => false,
                Ok(Verdict::Report(v)) => parsed is Some && dry_run && (found matches Some(m)
                    && v.success && v.message@ == "Would push image "@ + name@ + " (created: "@
                    + decimal(m.created as nat) + ") to "@ + url_text(parsed->Some_0)),
                Ok(Verdict::Proceed(target)) => parsed == Some(target@) && found is Some
                    && !dry_run && token is Some,
            }
        }),
{
    let r = match registry {
        Some(r) => r,
        None => "ghcr.io",
    };
    let target = match ImageRef::parse(image, r, "cirunlabs") {
        Ok(x) => x,
        Err(e) => {
            return Err(e);
        },
    };
    let manifest = match found {
        Some(m) => m,
        None => {
            return Err(Error::ImageNotFound(wrap("Local image '", name, "' not found")));
        },
    };
    if dry_run {
        let mut m = String::from_str("Would push image ");
        m.append(name);
        m.append(" (created: ");
        m.append(to_decimal(manifest.created).as_str());
        m.append(") to ");
        m.append(target.url().as_str());
        return Ok(Verdict::Report(ImageResult { success: true, message: m }));
    }
    if token.is_none() {
        return Err(
            Error::Other(
                String::from_str(
                    "GITHUB_TOKEN environment variable not set. Please set it with: export GITHUB_TOKEN=your_token",
                ),
            ),
        );
    }
    Ok(Verdict::Proceed(target))
}

/// What is made of the outcome of an upload: a success is reported; a
/// failure is reported in machine mode (`json`) and returned otherwise.
pub fn push_outcome(name: &str, target: &ImageRef, outcome: Result<()>, json: bool) -> (r: Result<
    ImageResult,
>)
    ensures
        match outcome {
            Ok(_) => r matches Ok(v) && v.success && v.message@ == "Successfully pushed image "@
                + name@ + " to "@ + url_text(target@),
            Err(e) => if json {
                r matches Ok(v) && !v.success && v.message@ == "Failed to push image "@ + name@
                    + ": "@ + crate::error::message_of(e)
            } else {
                r == Err::<ImageResult, Error>(e)
            },
        },
{
    match outcome {
        Ok(_) => {
            let mut m = String::from_str("Successfully pushed image ");
            m.append(name);
            m.append(" to ");
            m.append(target.url().as_str());
            Ok(ImageResult { success: true, message: m })
        },
        Err(e) => {
            if json {
                let mut m = String::from_str("Failed to push image ");
                m.append(name);
                m.append(": ");
                m.append(e.message().as_str());
                Ok(ImageResult { success: false, message: m })
            } else {
                Err(e)
            }
        },
    }
}

/// The media type under which the file of the role `role` is uploaded:
/// the role with its underscores made hyphens, marked as a chunk or not.
pub open spec fn media_type(role: Seq<char>, chunk: bool) -> Seq<char> {
    "application/vnd.cirunlabs.meda."@ + replace_char_spec(role, '_', '-') + (if chunk {
        "-chunk.v1"@
    } else {
        ".v1"@
    })
}

/// The last part of a path.
pub open spec fn base_name(path: Seq<char>) -> Seq<char> {
    split_on(path, '/').last()
}

/// What stands before the last slash of a path.
pub open spec fn parent_text(path: Seq<char>) -> Seq<char> {
    if exists|p: int| crate::text::last_match(path, "/"@, p) {
        path.subrange(0, choose|p: int| crate::text::last_match(path, "/"@, p))
    } else {
        Seq::empty()
    }
}

/// What the registry client is told to upload of the first `n` chunks of a
/// file: the name of each chunk, with the media type of a chunk of the role.
pub open spec fn chunk_items(filename: Seq<char>, role: Seq<char>, n: nat) -> Seq<Seq<char>>
    decreases n,
{
    if n == 0 {
        args()
    } else {
        chunk_items(filename, role, (n - 1) as nat).push(
            chunk_name(filename, (n - 1) as nat) + ":"@ + media_type(role, true),
        )
    }
}

/// The size of the file of the artifact at position `k`, if the file is there.
pub open spec fn size_at(sizes: Seq<Option<u64>>, k: int) -> Option<u64> {
    if 0 <= k < sizes.len() {
        sizes[k]
    } else {
        None
    }
}

/// What an upload is made of.
pub struct UploadView {
    /// What the registry client is told to upload.
    pub items: Seq<Seq<char>>,
    /// The links made for the files that are uploaded whole.
    pub links: Seq<StepView>,
    /// The files that are uploaded in chunks: the artifact's file of each.
    pub chunked: Seq<Seq<char>>,
}

/// What uploading the first `k` of `artifacts` is made of. An artifact
/// whose file is not there is passed over. A file that reaches the chunking
/// threshold is uploaded in chunks, split under the name of its last path
/// part. Any other file is uploaded whole, through a link in the scratch
/// directory, so that the client sees paths below that directory only.
pub open spec fn upload_of(
    config: crate::chunking::ChunkingConfig,
    source_dir: Seq<char>,
    scratch: Seq<char>,
    artifacts: Seq<(Seq<char>, Seq<char>)>,
    sizes: Seq<Option<u64>>,
    k: int,
) -> UploadView
    decreases k,
{
    if k <= 0 {
        UploadView { items: args(), links: plan(), chunked: args() }
    } else {
        let before = upload_of(config, source_dir, scratch, artifacts, sizes, k - 1);
        let role = artifacts[k - 1].0;
        let file = artifacts[k - 1].1;
        match size_at(sizes, k - 1) {
            None => before,
            Some(size) => if size >= config.min_chunk_threshold {
                UploadView {
                    items: before.items + chunk_items(
                        base_name(file),
                        role,
                        crate::chunking::chunk_count(
                            size as nat,
                            config.tier_size(size) as nat,
                        ),
                    ),
                    links: before.links,
                    chunked: before.chunked.push(file),
                }
            } else {
                let link = path_under(scratch, file);
                UploadView {
                    items: before.items.push(file + ":"@ + media_type(role, false)),
                    links: before.links.push(StepView::CreateDir(parent_text(link))).push(
                        StepView::RemoveFile(link),
                    ).push(StepView::Symlink(path_under(source_dir, file), link)),
                    chunked: before.chunked,
                }
            },
        }
    }
}

/// One of the first `k` artifacts has a file that reaches the chunking
/// threshold and cannot be split.
pub open spec fn unsplittable(
    config: crate::chunking::ChunkingConfig,
    sizes: Seq<Option<u64>>,
    k: int,
) -> bool {
    exists|i: int|
        0 <= i < k && (#[trigger] size_at(sizes, i) matches Some(size) && size
            >= config.min_chunk_threshold && !splits(config, size))
}

/// The annotations that carry the image's metadata.
pub open spec fn metadata_annotations(metadata: Seq<(Seq<char>, Seq<char>)>) -> Seq<Seq<char>>
    decreases metadata.len(),
{
    if metadata.len() == 0 {
        args()
    } else {
        metadata_annotations(metadata.drop_last()).push("--annotation"@).push(
            "meda.metadata."@ + metadata.last().0 + "="@ + metadata.last().1,
        )
    }
}

/// The annotations that tell of the chunked files: for each of `names` its
/// name, and the list `all` of all of them.
pub open spec fn chunk_annotations(names: Seq<Seq<char>>, all: Seq<char>) -> Seq<Seq<char>>
    decreases names.len(),
{
    if names.len() == 0 {
        args()
    } else {
        chunk_annotations(names.drop_last(), all).push("--annotation"@).push(
            "org.cirunlabs.meda.original-filename="@ + names.last(),
        ).push("--annotation"@).push("org.cirunlabs.meda.chunked-files="@ + all)
    }
}

/// The annotations that every upload carries: when the image was created,
/// its name and tag, and the time of the upload.
pub open spec fn fixed_annotations(m: ImageManifest, now: u64) -> Seq<Seq<char>> {
    args().push("--annotation"@).push("meda.created="@ + decimal(m.created as nat)).push(
        "--annotation"@,
    ).push("meda.name="@ + m.name@).push("--annotation"@).push("meda.tag="@ + m.tag@).push(
        "--annotation"@,
    ).push("org.cirunlabs.meda.upload-time="@ + decimal(now as nat))
}

/// How the arguments of an upload begin: the target, the token as a
/// password, the artifact type, the concurrency, and `--no-tty` in machine
/// mode or `--verbose` otherwise.
pub open spec fn push_head(url: Seq<char>, token: Seq<char>, concurrency: u32, json: bool) -> Seq<
    Seq<char>,
> {
    args().push("push"@).push(url).push("--username"@).push("token"@).push("--password"@).push(
        token,
    ).push("--artifact-type"@).push("application/vnd.cirunlabs.meda.vm.v1"@).push(
        "--disable-path-validation"@,
    ).push("--concurrency"@).push(decimal(concurrency as nat)).push(
        if json {
            "--no-tty"@
        } else {
            "--verbose"@
        },
    )
}

/// `job` splits the artifact file `file` of the image in `source_dir` into
/// chunks kept in `scratch`, under the name of the file's last path part.
pub open spec fn is_split_job(
    job: SplitJob,
    config: crate::chunking::ChunkingConfig,
    source_dir: Seq<char>,
    scratch: Seq<char>,
    file: Seq<char>,
) -> bool {
    &&& job.source@ == path_under(source_dir, file)
    &&& is_split_plan(
        job.metadata,
        chunk_views(job.chunks@),
        base_name(file),
        job.metadata.total_size,
        config.tier_size(job.metadata.total_size),
        scratch,
    )
}

/// A file that is to be split into chunks for an upload.
#[derive(Debug, Clone)]
pub struct SplitJob {
    /// The file to split.
    pub source: String,
    /// What is known of the whole.
    pub metadata: ChunkMetadata,
    /// The chunks to write, in order.
    pub chunks: Vec<ChunkInfo>,
}

/// An upload that is to be carried out.
#[derive(Debug, Clone)]
pub struct Upload {
    /// What is done first: make sure of the binaries, create the scratch
    /// directory, and link the files that are uploaded whole.
    pub steps: Vec<Step>,
    /// The files to split into chunks.
    pub splits: Vec<SplitJob>,
    /// The registry client's command, to run in the scratch directory.
    pub command: Command,
    /// The scratch directory.
    pub scratch: String,
    /// What is done last, whatever the earlier steps, the splits and the
    /// client came to: remove the scratch directory. A failure of it is
    /// passed over.
    pub cleanup: Vec<Step>,
}

/// The scratch directory of an upload made at the time `now`, under `temp_dir`.
pub fn push_scratch_dir(temp_dir: &str, now: u64) -> (r: String)
    ensures
        r@ == path_under(temp_dir@, "meda-push-chunks-"@ + decimal(now as nat)),
{
    join_path(temp_dir, pair("meda-push-chunks-", to_decimal(now).as_str()).as_str())
}

/// The media type under which the file of the role `role` is uploaded.
pub fn media(role: &str, chunk: bool) -> (r: String)
    ensures
        r@ == media_type(role@, chunk),
{
    let mut r = String::from_str("application/vnd.cirunlabs.meda.");
    r.append(from_chars(&replace_char(&to_chars(role), '_', '-')).as_str());
    r.append(
        if chunk {
            "-chunk.v1"
        } else {
            ".v1"
        },
    );
    r
}

/// What stands before the last slash of a path.
fn parent_of(path: &str) -> (r: String)
    ensures
        r@ == parent_text(path@),
{
    let p = to_chars(path);
    let slash = to_chars("/");
    match crate::text::rfind(&p, &slash) {
        Some(i) => {
            let ghost i0 = choose|i: int| crate::text::last_match(path@, "/"@, i);
            assert(i0 == i);
            assert(match_at(p@, slash@, i as int));
            from_chars(&slice(&p, 0, i))
        },
        None => {
            assert forall|i: int| !crate::text::last_match(path@, "/"@, i) by {
                if crate::text::last_match(path@, "/"@, i) {
                    assert(match_at(path@, "/"@, i));
                }
            }
            String::new()
        },
    }
}

/// The last part of a path.
fn last_part(path: &str) -> (r: String)
    ensures
        r@ == base_name(path@),
{
    let parts = split(&to_chars(path), '/');
    assert(views_of(parts@).last() == parts@[parts.len() - 1]@);
    from_chars(&parts[parts.len() - 1])
}

/// Adds to `a` what the registry client is told to upload of the chunks of a file.
fn push_chunk_items(a: &mut Vec<String>, filename: &str, role: &str, n: usize)
    ensures
        strs(final(a)@) == strs(old(a)@) + chunk_items(filename@, role@, n as nat),
{
    let kind = media(role, true);
    let mut j: usize = 0;
    assert(strs(a@) =~= strs(old(a)@) + chunk_items(filename@, role@, 0));
    while j < n
        invariant
            j <= n,
            kind@ == media_type(role@, true),
            strs(a@) == strs(old(a)@) + chunk_items(filename@, role@, j as nat),
        decreases n - j,
    {
        let item = wrap(
            crate::chunking::chunk_file_name(filename, j).as_str(),
            ":",
            kind.as_str(),
        );
        push_arg(a, item.as_str());
        j += 1;
        assert(strs(a@) =~= strs(old(a)@) + chunk_items(filename@, role@, j as nat));
    }
}

/// Adds to `a` the annotations that carry the image's metadata.
fn push_metadata_annotations(a: &mut Vec<String>, metadata: &StrMap)
    ensures
        strs(final(a)@) == strs(old(a)@) + metadata_annotations(metadata.pairs()),
{
    let mut i: usize = 0;
    assert(metadata.pairs().subrange(0, 0) =~= pairs());
    assert(strs(a@) =~= strs(old(a)@) + metadata_annotations(metadata.pairs().subrange(0, 0)));
    while i < metadata.len()
        invariant
            i <= metadata.pairs().len(),
            strs(a@) == strs(old(a)@) + metadata_annotations(
                metadata.pairs().subrange(0, i as int),
            ),
        decreases metadata.pairs().len() - i,
    {
        let ghost cur = metadata.pairs().subrange(0, i + 1);
        assert(cur.drop_last() == metadata.pairs().subrange(0, i as int));
        assert(cur.last() == metadata.pairs()[i as int]);
        let mut text = String::from_str("meda.metadata.");
        text.append(metadata.key_at(i).as_str());
        text.append("=");
        text.append(metadata.value_at(i).as_str());
        push_arg(a, "--annotation");
        push_arg(a, text.as_str());
        i += 1;
        assert(strs(a@) =~= strs(old(a)@) + metadata_annotations(cur));
    }
    assert(metadata.pairs().subrange(0, i as int) == metadata.pairs());
}

/// Adds to `a` the annotations that tell of the chunked files.
fn push_chunk_annotations(a: &mut Vec<String>, names: &Vec<String>)
    ensures
        strs(final(a)@) == strs(old(a)@) + chunk_annotations(
            strs(names@),
            join_with(strs(names@), ","@),
        ),
{
    assert(names.deep_view() =~= strs(names@));
    let all = join(names, ",");
    let mut i: usize = 0;
    assert(strs(names@).subrange(0, 0) =~= Seq::<Seq<char>>::empty());
    assert(strs(a@) =~= strs(old(a)@) + chunk_annotations(strs(names@).subrange(0, 0), all@));
    while i < names.len()
        invariant
            i <= names.len(),
            all@ == join_with(strs(names@), ","@),
            strs(a@) == strs(old(a)@) + chunk_annotations(
                strs(names@).subrange(0, i as int),
                all@,
            ),
        decreases names.len() - i,
    {
        let ghost cur = strs(names@).subrange(0, i + 1);
        assert(cur.drop_last() == strs(names@).subrange(0, i as int));
        assert(cur.last() == names@[i as int]@);
        push_arg(a, "--annotation");
        push_arg(a, pair("org.cirunlabs.meda.original-filename=", names[i].as_str()).as_str());
        push_arg(a, "--annotation");
        push_arg(a, pair("org.cirunlabs.meda.chunked-files=", all.as_str()).as_str());
        i += 1;
        assert(strs(a@) =~= strs(old(a)@) + chunk_annotations(cur, all@));
    }
    assert(strs(names@).subrange(0, i as int) == strs(names@));
}

/// What uploading the image with the manifest `manifest`, kept in
/// `source_dir`, to `target_ref` takes. `sizes` holds, for each artifact of
/// the manifest in order, the size of its file if the file is there;
/// `scratch` is the scratch directory and `now` the time. The upload fails
/// before anything is done if a file that is to be chunked cannot be split.
pub fn push_to_oci_registry(
    config: &Config,
    source_dir: &str,
    manifest: &ImageManifest,
    target_ref: &ImageRef,
    github_token: &str,
    json: bool,
    sizes: &Vec<Option<u64>>,
    scratch: &str,
    now: u64,
) -> (r: Result<Upload>)
    ensures
        ({
            let artifacts = manifest.artifacts.pairs();
            let n = artifacts.len() as int;
            let up = upload_of(config.chunking, source_dir@, scratch@, artifacts, sizes@, n);
            match r {
                Ok(u) => {
                    &&& !unsplittable(config.chunking, sizes@, n)
                    &&& u.scratch@ == scratch@
                    &&& steps(u.cleanup@) == plan().push(StepView::RemoveDir(scratch@))
                    &&& steps(u.steps@) == plan().push(StepView::Bootstrap { full: false }).push(
                        StepView::CreateDir(scratch@),
                    ) + up.links
                    &&& u.command@ == cmd(
                        config.oras_bin@,
                        push_head(
                            url_text(target_ref@),
                            github_token@,
                            match config.chunking.oras_push_concurrency {
                                Some(c) => c,
                                None => config.chunking.oras_concurrency,
                            },
                            json,
                        ) + up.items + metadata_annotations(manifest.metadata.pairs())
                            + chunk_annotations(up.chunked, join_with(up.chunked, ","@))
                            + fixed_annotations(*manifest, now),
                    )
                    &&& u.splits.len() == up.chunked.len()
                    &&& forall|i: int|
                        0 <= i < u.splits.len() ==> is_split_job(
                            #[trigger] u.splits@[i],
                            config.chunking,
                            source_dir@,
                            scratch@,
                            up.chunked[i],
                        )
                },
                Err(e) => unsplittable(config.chunking, sizes@, n) && e is Other,
            }
        }),
{
    let chunker = FileChunker::with_config(config.chunking);
    let ghost cfg = config.chunking;
    let ghost artifacts = manifest.artifacts.pairs();
    let mut items = no_args();
    let mut links = no_steps();
    push_step(&mut links, Step::Bootstrap { full: false });
    push_step(&mut links, create_dir(scratch));
    let ghost first = steps(links@);
    let mut chunked = no_args();
    let mut jobs: Vec<SplitJob> = Vec::new();
    let mut k: usize = 0;
    while k < manifest.artifacts.len()
        invariant
            k <= manifest.artifacts.pairs().len(),
            cfg == config.chunking,
            chunker.config() == cfg,
            artifacts == manifest.artifacts.pairs(),
            !unsplittable(cfg, sizes@, k as int),
            strs(items@) == upload_of(cfg, source_dir@, scratch@, artifacts, sizes@, k as int).items,
            first == plan().push(StepView::Bootstrap { full: false }).push(
                StepView::CreateDir(scratch@),
            ),
            steps(links@) == first + upload_of(
                cfg,
                source_dir@,
                scratch@,
                artifacts,
                sizes@,
                k as int,
            ).links,
            strs(chunked@) == upload_of(
                cfg,
                source_dir@,
                scratch@,
                artifacts,
                sizes@,
                k as int,
            ).chunked,
            jobs.len() == chunked.len(),
            forall|i: int|
                0 <= i < jobs.len() ==> is_split_job(
                    #[trigger] jobs@[i],
                    cfg,
                    source_dir@,
                    scratch@,
                    strs(chunked@)[i],
                ),
        decreases manifest.artifacts.pairs().len() - k,
    {
        let role = manifest.artifacts.key_at(k);
        let file = manifest.artifacts.value_at(k);
        let size: Option<u64> = if k < sizes.len() {
            sizes[k]
        } else {
            None
        };
        assert(size == size_at(sizes@, k as int));
        let ghost next = upload_of(cfg, source_dir@, scratch@, artifacts, sizes@, k + 1);
        match size {
            None => {},
            Some(bytes) => {
                if chunker.should_chunk_file(bytes) {
                    let base = last_part(file.as_str());
                    match chunker.chunk_file(base.as_str(), bytes, scratch) {
                        Ok((metadata, chunks)) => {
                            push_chunk_items(
                                &mut items,
                                base.as_str(),
                                role.as_str(),
                                chunks.len(),
                            );
                            let ghost names = strs(chunked@);
                            push_arg(&mut chunked, file.as_str());
                            jobs.push(
                                SplitJob {
                                    source: join_path(source_dir, file.as_str()),
                                    metadata,
                                    chunks,
                                },
                            );
                            assert forall|i: int| 0 <= i < jobs.len() implies is_split_job(
                                #[trigger] jobs@[i],
                                cfg,
                                source_dir@,
                                scratch@,
                                strs(chunked@)[i],
                            ) by {
                                if i < jobs.len() - 1 {
                                    assert(strs(chunked@)[i] == names[i]);
                                }
                            }
                        },
                        Err(e) => {
                            assert(unsplittable(cfg, sizes@, manifest.artifacts.pairs().len() as int))
                                by {
                                assert(size_at(sizes@, k as int) matches Some(b) && b
                                    >= cfg.min_chunk_threshold && !splits(cfg, b));
                            }
                            return Err(e);
                        },
                    }
                } else {
                    let link = join_path(scratch, file.as_str());
                    push_arg(&mut items, wrap(file.as_str(), ":", media(role.as_str(), false).as_str()).as_str());
                    push_step(&mut links, create_dir(parent_of(link.as_str()).as_str()));
                    push_step(&mut links, crate::plan::remove_file(link.as_str()));
                    push_step(
                        &mut links,
                        Step::Symlink(join_path(source_dir, file.as_str()), link),
                    );
                    assert(steps(links@) =~= first + next.links);
                }
            },
        }
        assert(!unsplittable(cfg, sizes@, k + 1)) by {
            if unsplittable(cfg, sizes@, k + 1) {
                let i = choose|i: int|
                    0 <= i < k + 1 && (#[trigger] size_at(sizes@, i) matches Some(b) && b
                        >= cfg.min_chunk_threshold && !splits(cfg, b));
                if i < k {
                    assert(unsplittable(cfg, sizes@, k as int));
                }
            }
        }
        k += 1;
    }
    let mut a = no_args();
    push_arg(&mut a, "push");
    push_arg(&mut a, target_ref.url().as_str());
    push_arg(&mut a, "--username");
    push_arg(&mut a, "token");
    push_arg(&mut a, "--password");
    push_arg(&mut a, github_token);
    push_arg(&mut a, "--artifact-type");
    push_arg(&mut a, "application/vnd.cirunlabs.meda.vm.v1");
    push_arg(&mut a, "--disable-path-validation");
    push_arg(&mut a, "--concurrency");
    push_arg(&mut a, to_decimal(config.chunking.get_push_concurrency() as u64).as_str());
    push_arg(
        &mut a,
        if json {
            "--no-tty"
        } else {
            "--verbose"
        },
    );
    crate::util::extend_args(&mut a, &items);
    push_metadata_annotations(&mut a, &manifest.metadata);
    push_chunk_annotations(&mut a, &chunked);
    let ghost before = strs(a@);
    push_arg(&mut a, "--annotation");
    push_arg(&mut a, pair("meda.created=", to_decimal(manifest.created).as_str()).as_str());
    push_arg(&mut a, "--annotation");
    push_arg(&mut a, pair("meda.name=", manifest.name.as_str()).as_str());
    push_arg(&mut a, "--annotation");
    push_arg(&mut a, pair("meda.tag=", manifest.tag.as_str()).as_str());
    push_arg(&mut a, "--annotation");
    push_arg(&mut a, pair("org.cirunlabs.meda.upload-time=", to_decimal(now).as_str()).as_str());
    assert(strs(a@) =~= before + fixed_annotations(*manifest, now));
    let mut cleanup = no_steps();
    push_step(&mut cleanup, Step::RemoveDir(String::from_str(scratch)));
    Ok(
        Upload {
            steps: links,
            splits: jobs,
            command: command(config.oras_bin.as_str(), a),
            scratch: String::from_str(scratch),
            cleanup,
        },
    )
}

} // verus!
