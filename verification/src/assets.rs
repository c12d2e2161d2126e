use vstd::prelude::*;
use vstd::string::*;

use crate::text::lemma_push_contains;

verus! {

/// The MIME type that `mime_guess` gives for a file extension, as text: the
/// first type its table lists for the extension, or `application/octet-stream`.
pub uninterp spec fn mime_for_extension(extension: Seq<char>) -> Seq<char>;

/// Looks up the MIME type of a file extension with `mime_guess::get_mime_type`
/// (`from_ext(extension).first_or_octet_stream()`), as text. The text comes from
/// the crate's fixed table, so it is named as a function of the extension.
#[verifier::external_body]
#[allow(deprecated)]
fn mime_type_for_extension(extension: &str) -> (r: String)
    ensures
        r@ == mime_for_extension(extension@),
{
    mime_guess::get_mime_type(extension).to_string()
}

/// Asks `std::path::Path::extension` for the extension of a file path. What is
/// claimed, as the documentation of `Path::extension`, `Path::file_name` and
/// `Path::components` gives it: an extension is the text after the last `.` of
/// the file name, so it holds neither `.` nor `/`; and for a path that every
/// platform reads alike (see [`is_portable_path`]) the result is
/// [`path_extension_of`] the path. For a path with a `\`, a leading `//` or a
/// drive prefix, which extension is given follows the platform's path rules and
/// is not stated.
#[verifier::external_body]
fn path_extension(file_path: &str) -> (r: Option<String>)
    ensures
        r matches Some(e) ==> !e@.contains('.') && !e@.contains('/'),
        is_portable_path(file_path@) ==> string_text(r) == path_extension_of(file_path@),
{
    std::path::Path::new(file_path).extension().and_then(|e| e.to_str()).map(|e| e.to_string())
}

/// The text of an optional string.
pub open spec fn string_text(o: Option<String>) -> Option<Seq<char>> {
    match o {
        Some(s) => Some(s@),
        None => None,
    }
}

/// A path that every platform splits the same way: it holds no `\`, does not
/// start with `//`, and has no drive prefix (a `:` as its second character).
pub open spec fn is_portable_path(path: Seq<char>) -> bool {
    &&& !path.contains('\\')
    &&& !(path.len() >= 2 && path[0] == '/' && path[1] == '/')
    &&& !(path.len() >= 2 && path[1] == ':')
}

/// A segment of a path that names something: not empty, and not `.` (the current
/// directory), which paths leave out.
pub open spec fn named_segment(segment: Seq<char>) -> bool {
    segment.len() > 0 && segment != seq!['.']
}

/// The filter that keeps the named segments.
pub open spec fn named_segments() -> spec_fn(Seq<char>) -> bool {
    |segment: Seq<char>| named_segment(segment)
}

/// The file name of a path: its last named segment, unless that is `..`; none
/// when the path has no named segment.
pub open spec fn file_name_of(path: Seq<char>) -> Option<Seq<char>> {
    let named = split_segments(path).filter(named_segments());
    if named.len() == 0 || named.last() == seq!['.', '.'] {
        None
    } else {
        Some(named.last())
    }
}

/// The extension of a file path: that of its file name, if it has one.
pub open spec fn path_extension_of(path: Seq<char>) -> Option<Seq<char>> {
    match file_name_of(path) {
        Some(name) => name_extension(name),
        None => None,
    }
}

/// The index of the last `.` in a text, or -1 when it holds none.
pub open spec fn last_dot_index(s: Seq<char>) -> int
    decreases s.len(),
{
    if s.len() == 0 {
        -1
    } else if s.last() == '.' {
        s.len() - 1
    } else {
        last_dot_index(s.drop_last())
    }
}

/// The extension of a file name: the text after its last `.`; none when the
/// name holds no `.`, or when its only `.` is its first character.
pub open spec fn name_extension(name: Seq<char>) -> Option<Seq<char>> {
    let k = last_dot_index(name);
    if k <= 0 {
        None
    } else {
        Some(name.subrange(k + 1, name.len() as int))
    }
}

/// The type of content that is not recognised.
pub open spec fn octet_stream() -> Seq<char> {
    "application/octet-stream"@
}

/// The `Content-Type` of a file with the given extension.
pub open spec fn content_type_of(extension: Option<Seq<char>>) -> Seq<char> {
    match extension {
        Some(e) => mime_for_extension(e),
        None => octet_stream(),
    }
}

/// The `Cache-Control` value sent with static assets.
pub open spec fn static_cache_control() -> Seq<char> {
    "public, max-age=3600"@
}

/// The file extensions, without the dot, that are served as static assets.
pub open spec fn default_extension_set() -> Set<Seq<char>> {
    set![
        "css"@, "js"@, "png"@, "jpg"@, "jpeg"@, "gif"@, "svg"@, "ico"@, "woff"@, "woff2"@,
        "ttf"@, "eot"@, "pdf"@, "webp"@, "avif"@,
    ]
}

/// The set of file extensions that are served with caching headers.
pub struct WebStaticFileExtensions {
    extensions: Vec<String>,
}

/// The texts of a list of strings.
pub open spec fn texts(v: Seq<String>) -> Seq<Seq<char>> {
    v.map_values(|s: String| s@)
}

impl View for WebStaticFileExtensions {
    type V = Set<Seq<char>>;

    closed spec fn view(&self) -> Set<Seq<char>> {
        texts(self.extensions@).to_set()
    }
}

fn same_text(a: &String, b: &String) -> (r: bool)
    ensures
        r == (a@ == b@),
{
    a.eq(b)
}

impl WebStaticFileExtensions {
    #[verifier::type_invariant]
    closed spec fn inv(&self) -> bool {
        texts(self.extensions@).no_duplicates()
    }

    /// The set holds no extension.
    fn empty() -> (r: WebStaticFileExtensions)
        ensures
            r@ == Set::<Seq<char>>::empty(),
    {
        let r = WebStaticFileExtensions { extensions: Vec::new() };
        assert(texts(r.extensions@) =~= Seq::<Seq<char>>::empty());
        assert(r@ =~= Set::<Seq<char>>::empty());
        r
    }

    /// The default set: the usual extensions of style sheets, scripts, images,
    /// fonts and documents.
    pub fn new() -> (r: WebStaticFileExtensions)
        ensures
            r@ == default_extension_set(),
    {
        let mut r = WebStaticFileExtensions::empty();
        r.add_extension(String::from_str("css"));
        r.add_extension(String::from_str("js"));
        r.add_extension(String::from_str("png"));
        r.add_extension(String::from_str("jpg"));
        r.add_extension(String::from_str("jpeg"));
        r.add_extension(String::from_str("gif"));
        r.add_extension(String::from_str("svg"));
        r.add_extension(String::from_str("ico"));
        r.add_extension(String::from_str("woff"));
        r.add_extension(String::from_str("woff2"));
        r.add_extension(String::from_str("ttf"));
        r.add_extension(String::from_str("eot"));
        r.add_extension(String::from_str("pdf"));
        r.add_extension(String::from_str("webp"));
        r.add_extension(String::from_str("avif"));
        assert(r@ =~= default_extension_set());
        r
    }

    /// The set of the given extensions (duplicates count once).
    pub fn with_extensions(extensions: Vec<String>) -> (r: WebStaticFileExtensions)
        ensures
            r@ == texts(extensions@).to_set(),
    {
        let mut r = WebStaticFileExtensions::empty();
        let ghost all = texts(extensions@);
        let mut i: usize = 0;
        while i < extensions.len()
            invariant
                all == texts(extensions@),
                i <= extensions@.len(),
                r@ == all.take(i as int).to_set(),
            decreases extensions@.len() - i,
        {
            let ghost before = r@;
            r.add_extension(String::from_str(extensions[i].as_str()));
            proof {
                assert(all.take(i + 1) =~= all.take(i as int).push(all[i as int]));
                assert(r@ =~= all.take(i + 1).to_set()) by {
                    assert forall|t: Seq<char>| r@.contains(t) <==> all.take(i + 1).to_set().contains(t) by {
                        lemma_push_contains(all.take(i as int), all[i as int], t);
                    }
                }
            }
            i = i + 1;
        }
        assert(all.take(extensions@.len() as int) =~= all);
        r
    }

    /// Whether `extension` (without the dot) is in the set.
    pub fn contains(&self, extension: &str) -> (r: bool)
        ensures
            r == self@.contains(extension@),
    {
        let wanted = String::from_str(extension);
        let mut i: usize = 0;
        while i < self.extensions.len()
            invariant
                wanted@ == extension@,
                i <= self.extensions@.len(),
                forall|k: int| 0 <= k < i ==> self.extensions@[k]@ != extension@,
            decreases self.extensions@.len() - i,
        {
            if same_text(&self.extensions[i], &wanted) {
                proof {
                    assert(texts(self.extensions@)[i as int] == extension@);
                }
                return true;
            }
            i = i + 1;
        }
        proof {
            if texts(self.extensions@).contains(extension@) {
                let k = choose|k: int| 0 <= k < texts(self.extensions@).len() && texts(self.extensions@)[k] == extension@;
                assert(self.extensions@[k]@ == extension@);
            }
        }
        false
    }

    /// Adds `extension` (without the dot) to the set.
    pub fn add_extension(&mut self, extension: String)
        ensures
            final(self)@ == old(self)@.insert(extension@),
    {
        proof {
            use_type_invariant(&*self);
        }
        if self.contains(extension.as_str()) {
            assert(old(self)@.insert(extension@) =~= old(self)@);
            return;
        }
        let ghost e = extension@;
        let mut list = Vec::new();
        std::mem::swap(&mut list, &mut self.extensions);
        list.push(extension);
        proof {
            assert(texts(list@) =~= texts(old(self).extensions@).push(e));
            assert(!texts(old(self).extensions@).contains(e));
            assert(texts(list@).no_duplicates()) by {
                assert forall|i: int, j: int| 0 <= i < texts(list@).len() && 0 <= j < texts(list@).len() && i != j implies texts(list@)[i] != texts(list@)[j] by {
                    if i == texts(list@).len() - 1 {
                        assert(texts(old(self).extensions@)[j] == texts(list@)[j]);
                    } else if j == texts(list@).len() - 1 {
                        assert(texts(old(self).extensions@)[i] == texts(list@)[i]);
                    }
                }
            }
        }
        self.extensions = list;
        assert(self@ =~= old(self)@.insert(e)) by {
            assert forall|t: Seq<char>| self@.contains(t) <==> old(self)@.insert(e).contains(t) by {
                lemma_push_contains(texts(old(self).extensions@), e, t);
            }
        }
    }

    /// Removes `extension` (without the dot) from the set.
    pub fn remove_extension(&mut self, extension: &str)
        ensures
            final(self)@ == old(self)@.remove(extension@),
    {
        proof {
            use_type_invariant(&*self);
        }
        let wanted = String::from_str(extension);
        let mut list = Vec::new();
        std::mem::swap(&mut list, &mut self.extensions);
        let ghost original = texts(list@);
        let mut kept: Vec<String> = Vec::new();
        let mut i: usize = 0;
        while i < list.len()
            invariant
                wanted@ == extension@,
                original == texts(list@),
                original.no_duplicates(),
                i <= list@.len(),
                texts(kept@).no_duplicates(),
                texts(kept@).to_set() == original.take(i as int).to_set().remove(extension@),
            decreases list@.len() - i,
        {
            let ghost before = texts(kept@);
            let keep = !same_text(&list[i], &wanted);
            if keep {
                kept.push(String::from_str(list[i].as_str()));
            }
            proof {
                let x = original[i as int];
                assert(x == list@[i as int]@);
                assert(keep == (x != extension@));
                assert(original.take(i + 1) =~= original.take(i as int).push(x));
                assert(!original.take(i as int).contains(x)) by {
                    if original.take(i as int).contains(x) {
                        let k = choose|k: int| 0 <= k < i && original.take(i as int)[k] == x;
                        assert(original[k] == original[i as int]);
                    }
                }
                if keep {
                    assert(texts(kept@) =~= before.push(x));
                    assert(!before.contains(x)) by {
                        if before.contains(x) {
                            assert(before.to_set().contains(x));
                        }
                    }
                    assert forall|a: int, b: int| 0 <= a < texts(kept@).len() && 0 <= b < texts(kept@).len() && a != b implies texts(kept@)[a] != texts(kept@)[b] by {
                        if a == before.len() {
                            assert(before[b] == texts(kept@)[b]);
                        } else if b == before.len() {
                            assert(before[a] == texts(kept@)[a]);
                        }
                    }
                } else {
                    assert(texts(kept@) =~= before);
                }
                assert(texts(kept@).to_set() =~= original.take(i + 1).to_set().remove(extension@)) by {
                    assert forall|t: Seq<char>| texts(kept@).to_set().contains(t) <==> original.take(i + 1).to_set().remove(extension@).contains(t) by {
                        lemma_push_contains(original.take(i as int), x, t);
                        assert(original.take(i + 1).to_set().contains(t) == original.take(i + 1).contains(t));
                        assert(original.take(i as int).to_set().contains(t) == original.take(i as int).contains(t));
                        assert(before.to_set().contains(t) == before.contains(t));
                        assert(texts(kept@).to_set().contains(t) == texts(kept@).contains(t));
                        if keep {
                            lemma_push_contains(before, x, t);
                        }
                    }
                }
            }
            i = i + 1;
        }
        assert(original.take(list@.len() as int) =~= original);
        self.extensions = kept;
        assert(self@ =~= old(self)@.remove(extension@));
    }

    /// The number of extensions in the set.
    pub fn len(&self) -> (r: usize)
        ensures
            r == self@.len(),
    {
        proof {
            use_type_invariant(self);
            texts(self.extensions@).unique_seq_to_set();
        }
        self.extensions.len()
    }

    /// Whether the set holds no extension.
    pub fn is_empty(&self) -> (r: bool)
        ensures
            r == (self@.len() == 0),
    {
        self.len() == 0
    }

    /// Each extension of the set once, in no particular order.
    pub fn iter(&self) -> (r: Vec<String>)
        ensures
            texts(r@).to_set() == self@,
            texts(r@).no_duplicates(),
    {
        let copy = self.clone();
        proof {
            use_type_invariant(&copy);
        }
        copy.extensions
    }

    /// Empties the set.
    pub fn clear(&mut self)
        ensures
            final(self)@ == Set::<Seq<char>>::empty(),
    {
        proof {
            use_type_invariant(&*self);
        }
        self.extensions = Vec::new();
        assert(texts(self.extensions@) =~= Seq::<Seq<char>>::empty());
        assert(self@ =~= Set::<Seq<char>>::empty());
    }
}

impl Clone for WebStaticFileExtensions {
    fn clone(&self) -> (r: Self)
        ensures
            r@ == self@,
    {
        proof {
            use_type_invariant(self);
        }
        let ghost all = texts(self.extensions@);
        let mut list: Vec<String> = Vec::new();
        let mut i: usize = 0;
        while i < self.extensions.len()
            invariant
                all == texts(self.extensions@),
                i <= self.extensions@.len(),
                texts(list@) == all.take(i as int),
            decreases self.extensions@.len() - i,
        {
            let copy = String::from_str(self.extensions[i].as_str());
            let ghost before = list@;
            list.push(copy);
            proof {
                assert(texts(before).len() == before.len());
                assert(before.len() == i);
                assert(copy@ == all[i as int]);
                assert(list@ == before.push(copy));
                assert forall|k: int| 0 <= k < i + 1 implies texts(list@)[k] == all.take(i + 1)[k] by {
                    if k < i {
                        assert(list@[k] == before[k]);
                    }
                }
                assert(texts(list@) =~= all.take(i + 1));
            }
            i = i + 1;
        }
        assert(all.take(self.extensions@.len() as int) =~= all);
        WebStaticFileExtensions { extensions: list }
    }
}

impl Default for WebStaticFileExtensions {
    fn default() -> (r: Self)
        ensures
            r@ == default_extension_set(),
    {
        WebStaticFileExtensions::new()
    }
}

/// Whether a file with extension `extension` is a static asset: with the
/// configured set when there is one, else with the default set; a file without
/// an extension is not.
pub open spec fn is_static_extension(extension: Option<Seq<char>>, configured: Option<Set<Seq<char>>>) -> bool {
    match extension {
        None => false,
        Some(e) => match configured {
            Some(set) => set.contains(e),
            None => default_extension_set().contains(e),
        },
    }
}

/// The set of an optional configuration.
pub open spec fn configured_set(configured: Option<&WebStaticFileExtensions>) -> Option<Set<Seq<char>>> {
    match configured {
        Some(c) => Some(c@),
        None => None,
    }
}

/// The text of an optional string slice.
pub open spec fn str_text(o: Option<&str>) -> Option<Seq<char>> {
    match o {
        Some(s) => Some(s@),
        None => None,
    }
}

/// The extension of a file path, without the dot, if it has one. It holds
/// neither `.` nor `/`; for a portable path it is the text after the last
/// `.` of the file name, and there is none when the name has no `.` or only a
/// leading one.
pub fn file_extension(file_path: &str) -> (r: Option<String>)
    ensures
        r matches Some(e) ==> !e@.contains('.') && !e@.contains('/'),
        is_portable_path(file_path@) ==> string_text(r) == path_extension_of(file_path@),
{
    path_extension(file_path)
}

/// Whether a file with the given extension is served as a static asset, with
/// the configured set of extensions when one is available and the default set
/// otherwise.
pub fn is_static_extension_in(extension: Option<&str>, configured: Option<&WebStaticFileExtensions>) -> (r: bool)
    ensures
        r == is_static_extension(str_text(extension), configured_set(configured)),
{
    match extension {
        None => false,
        Some(e) => match configured {
            Some(set) => set.contains(e),
            None => WebStaticFileExtensions::new().contains(e),
        },
    }
}

impl WebStaticFileExtensions {
    /// Whether the file at `file_path` is a static asset: its extension is in the
    /// configured set when one is available, else in the default set.
    pub fn is_static_asset(file_path: &str, configured: Option<&WebStaticFileExtensions>) -> (r: bool)
        ensures
            r ==> exists|e: Seq<char>|
                !e.contains('.') && !e.contains('/') && #[trigger] is_static_extension(Some(e), configured_set(configured)),
            is_portable_path(file_path@) ==> r == is_static_extension(
                path_extension_of(file_path@),
                configured_set(configured),
            ),
    {
        match file_extension(file_path) {
            Some(e) => {
                let r = is_static_extension_in(Some(e.as_str()), configured);
                assert(r ==> is_static_extension(Some(e@), configured_set(configured)));
                r
            },
            None => false,
        }
    }
}

/// The `Content-Type` of a file with the given extension, as `mime_guess` gives
/// it, or `application/octet-stream` for a file without an extension.
pub fn content_type_for_extension(extension: Option<&str>) -> (r: String)
    ensures
        r@ == content_type_of(str_text(extension)),
{
    match extension {
        Some(e) => mime_type_for_extension(e),
        None => String::from_str("application/octet-stream"),
    }
}

/// The `Cache-Control` header value of a served file: static assets may be
/// cached for an hour, other files carry no such header.
pub fn cache_control_for(is_static: bool) -> (r: Option<String>)
    ensures
        r matches Some(v) ==> v@ == static_cache_control(),
        r is Some == is_static,
{
    if is_static {
        Some(String::from_str("public, max-age=3600"))
    } else {
        None
    }
}

/// The `/`-separated segments of a path, in order; a path without `/` is one segment.
pub open spec fn split_segments(path: Seq<char>) -> Seq<Seq<char>>
    decreases path.len(),
{
    if path.len() == 0 {
        seq![Seq::<char>::empty()]
    } else {
        let before = split_segments(path.drop_last());
        if path.last() == '/' {
            before.push(Seq::<char>::empty())
        } else {
            before.update(before.len() - 1, before.last().push(path.last()))
        }
    }
}

/// Segments joined with `/` between them.
pub open spec fn join_segments(segments: Seq<Seq<char>>) -> Seq<char>
    decreases segments.len(),
{
    if segments.len() == 0 {
        Seq::<char>::empty()
    } else if segments.len() == 1 {
        segments[0]
    } else {
        join_segments(segments.drop_last()) + seq!['/'] + segments.last()
    }
}

/// A segment that may stay in a served path: anything but the parent directory `..`.
pub open spec fn allowed_segment(segment: Seq<char>) -> bool {
    segment != ".."@
}

/// The path with every `..` segment removed, so that it cannot climb above the
/// directory it starts from.
pub open spec fn sanitized(path: Seq<char>) -> Seq<char> {
    join_segments(split_segments(path).filter(allowed_segments()))
}

/// The filter that keeps the allowed segments.
pub open spec fn allowed_segments() -> spec_fn(Seq<char>) -> bool {
    |seg: Seq<char>| allowed_segment(seg)
}

proof fn lemma_split_nonempty(path: Seq<char>)
    ensures
        split_segments(path).len() >= 1,
    decreases path.len(),
{
    if path.len() > 0 {
        lemma_split_nonempty(path.drop_last());
    }
}

fn is_parent_segment(segment: &String) -> (r: bool)
    ensures
        r == !allowed_segment(segment@),
{
    let parent = String::from_str("..");
    segment.eq(&parent)
}

/// Removes every `..` segment from a file path before it is served.
pub fn sanitize_path(file_path: &str) -> (r: String)
    ensures
        r@ == sanitized(file_path@),
{
    let ghost pred = allowed_segments();
    let n = file_path.unicode_len();
    let mut kept: Vec<String> = Vec::new();
    let mut current = String::new();
    let mut i: usize = 0;
    while i < n
        invariant
            pred == allowed_segments(),
            n == file_path@.len(),
            i <= n,
            split_segments(file_path@.take(i as int)).len() >= 1,
            current@ == split_segments(file_path@.take(i as int)).last(),
            texts(kept@) == split_segments(file_path@.take(i as int)).drop_last().filter(pred),
        decreases n - i,
    {
        let ghost prefix = file_path@.take(i as int);
        let ghost segs = split_segments(prefix);
        let c = file_path.get_char(i);
        proof {
            assert(file_path@.take(i + 1).drop_last() =~= prefix);
            assert(file_path@.take(i + 1).last() == c);
            lemma_split_nonempty(file_path@.take(i + 1));
        }
        if c == '/' {
            let drop = is_parent_segment(&current);
            let ghost before = texts(kept@);
            if !drop {
                let finished = String::from_str(current.as_str());
                kept.push(finished);
            }
            current = String::new();
            proof {
                let next = split_segments(file_path@.take(i + 1));
                assert(next == segs.push(Seq::<char>::empty()));
                assert(next.drop_last() =~= segs);
                assert(segs =~= segs.drop_last().push(segs.last()));
                segs.drop_last().lemma_filter_push(segs.last(), pred);
                if !drop {
                    assert(texts(kept@) =~= before.push(segs.last()));
                } else {
                    assert(texts(kept@) =~= before);
                }
            }
        } else {
            let one = file_path.substring_char(i, i + 1);
            current.append(one);
            proof {
                let next = split_segments(file_path@.take(i + 1));
                assert(one@ =~= seq![c]);
                assert(next == segs.update(segs.len() - 1, segs.last().push(c)));
                assert(next.drop_last() =~= segs.drop_last());
                assert(current@ =~= next.last());
            }
        }
        i = i + 1;
    }
    let ghost segs = split_segments(file_path@);
    proof {
        assert(file_path@.take(n as int) =~= file_path@);
        assert(segs =~= segs.drop_last().push(segs.last()));
        segs.drop_last().lemma_filter_push(segs.last(), pred);
    }
    if !is_parent_segment(&current) {
        kept.push(current);
    }
    let ghost all = texts(kept@);
    proof {
        assert(all == segs.filter(pred));
    }
    let mut r = String::new();
    let mut j: usize = 0;
    while j < kept.len()
        invariant
            all == texts(kept@),
            j <= kept@.len(),
            r@ == join_segments(all.take(j as int)),
        decreases kept@.len() - j,
    {
        proof {
            assert(all.take(j + 1).drop_last() =~= all.take(j as int));
            assert(all.take(j + 1).last() == kept@[j as int]@);
        }
        if j == 0 {
            r.append(kept[j].as_str());
            proof {
                assert(all.take(1).len() == 1);
                assert(r@ =~= join_segments(all.take(1)));
            }
        } else {
            r.append("/");
            r.append(kept[j].as_str());
            proof {
                reveal_strlit("/");
                assert(r@ =~= join_segments(all.take(j + 1)));
            }
        }
        j = j + 1;
    }
    proof {
        assert(all.take(kept@.len() as int) =~= all);
    }
    r
}

} // verus!
