use vstd::prelude::*;

use crate::model::{DisplayConfig, ElementConfig, ElementType};
use crate::render::{ascii_fold, eq_ignore_case, eq_ignore_case_exec};
use crate::strings::{contains, ends_with, starts_with, starts_with_exec};

verus! {

/// A path that names an HTTP or HTTPS resource.
pub open spec fn is_url_spec(p: Seq<char>) -> bool {
    starts_with(p, "http://"@) || starts_with(p, "https://"@)
}

/// Whether `file_uri` is an HTTP(S) URL rather than a file path.
pub fn is_url(file_uri: &str) -> (r: bool)
    ensures
        r == is_url_spec(file_uri@),
{
    starts_with_exec(file_uri, "http://") || starts_with_exec(file_uri, "https://")
}

/// Why a layout cannot be enabled: the element at fault and the reason.
#[derive(Clone, Debug)]
pub struct ConfigInvalid {
    pub element_name: String,
    pub reason: String,
}

impl ConfigInvalid {
    /// The message shown to the user: `'<element>': <reason>`.
    pub fn message(&self) -> (r: String)
        ensures
            r@ == "'"@ + self.element_name@ + "': "@ + self.reason@,
    {
        let mut r = String::from_str("'");
        r.append(self.element_name.as_str());
        r.append("': ");
        r.append(self.reason.as_str());
        r
    }
}

/// The file or URL an element needs: a static image's image, a conditional image's archive.
pub open spec fn needed_path(e: ElementConfig) -> Option<Seq<char>> {
    match e.element_type {
        ElementType::StaticImage => match e.image_config {
            Some(c) => Some(c.image_path@),
            None => Some(Seq::empty()),
        },
        ElementType::ConditionalImage => match e.conditional_image_config {
            Some(c) => Some(c.images_path@),
            None => Some(Seq::empty()),
        },
        _ => None,
    }
}

/// The file or URL an element needs to be drawn, if any.
pub fn needed_path_of(e: &ElementConfig) -> (r: Option<String>)
    ensures
        match r {
            Some(p) => needed_path(*e) == Some(p@),
            None => needed_path(*e) is None,
        },
{
    match e.element_type {
        ElementType::StaticImage => match &e.image_config {
            Some(c) => Some(c.image_path.clone()),
            None => Some(String::new()),
        },
        ElementType::ConditionalImage => match &e.conditional_image_config {
            Some(c) => Some(c.images_path.clone()),
            None => Some(String::new()),
        },
        _ => None,
    }
}

/// First element, from `i` on, whose needed file or URL is not available.
pub open spec fn first_unavailable_from(
    elements: Seq<ElementConfig>,
    available: Seq<bool>,
    i: int,
) -> Option<int>
    decreases elements.len() - i,
{
    if i < 0 || i >= elements.len() {
        None
    } else if needed_path(elements[i]) is Some && !available[i] {
        Some(i)
    } else {
        first_unavailable_from(elements, available, i + 1)
    }
}

/// Reason given for an element whose file or URL is missing.
pub open spec fn missing_reason(e: ElementConfig) -> Seq<char> {
    if e.element_type == ElementType::StaticImage {
        "Image path '"@ + needed_path(e)->0 + "' does not exist."@
    } else {
        "Filepath '"@ + needed_path(e)->0 + "' does not exist."@
    }
}

/// Checks a layout before it is enabled: every static image and every conditional-image
/// archive must exist as a file or answer as a URL (`available[i]` tells, for element `i`,
/// what was found). The first element that fails is reported.
pub fn verify_config(display_config: &DisplayConfig, available: &Vec<bool>) -> (r: Result<
    (),
    ConfigInvalid,
>)
    requires
        available@.len() == display_config.elements@.len(),
    ensures
        match first_unavailable_from(display_config.elements@, available@, 0) {
            None => r is Ok,
            Some(k) => r matches Err(e) && e.element_name@ == display_config.elements@[k].name@
                && e.reason@ == missing_reason(display_config.elements@[k]),
        },
{
    let ghost els = display_config.elements@;
    let mut i: usize = 0;
    while i < display_config.elements.len()
        invariant
            i <= els.len(),
            els == display_config.elements@,
            available@.len() == els.len(),
            first_unavailable_from(els, available@, 0) == first_unavailable_from(
                els,
                available@,
                i as int,
            ),
        decreases els.len() - i,
    {
        let e = &display_config.elements[i];
        match needed_path_of(e) {
            Some(p) => {
                if !available[i] {
                    let mut reason = if e.element_type == ElementType::StaticImage {
                        String::from_str("Image path '")
                    } else {
                        String::from_str("Filepath '")
                    };
                    reason.append(p.as_str());
                    reason.append("' does not exist.");
                    return Err(ConfigInvalid { element_name: e.name.clone(), reason });
                }
            },
            None => {},
        }
        i = i + 1;
    }
    Ok(())
}

/// A text element drawn with the font family `f`.
pub open spec fn uses_family(e: ElementConfig, f: Seq<char>) -> bool {
    e.element_type == ElementType::Text && e.text_config is Some && e.text_config->0.font_family@
        == f
}

/// A text element with its text settings.
pub open spec fn is_text_element(e: ElementConfig) -> bool {
    e.element_type == ElementType::Text && e.text_config is Some
}

/// Some element of the layout is a text element drawn with the family `f`.
pub open spec fn family_used(elements: Seq<ElementConfig>, f: Seq<char>) -> bool {
    exists|k: int| 0 <= k < elements.len() && uses_family(#[trigger] elements[k], f)
}

/// The family `f` is in the list.
pub open spec fn listed(families: Seq<String>, f: Seq<char>) -> bool {
    exists|i: int| 0 <= i < families.len() && (#[trigger] families[i])@ == f
}

/// The font families the text elements of a layout use, each once, in order of first use.
pub fn text_font_families(display_config: &DisplayConfig) -> (r: Vec<String>)
    ensures
        forall|i: int, j: int|
            0 <= i < j < r@.len() ==> (#[trigger] r@[i])@ != (#[trigger] r@[j])@,
        forall|i: int| 0 <= i < r@.len() ==> family_used(display_config.elements@, (#[trigger] r@[i])@),
        forall|k: int|
            0 <= k < display_config.elements@.len() && is_text_element(
                #[trigger] display_config.elements@[k],
            ) ==> listed(r@, display_config.elements@[k].text_config->0.font_family@),
{
    let ghost els = display_config.elements@;
    let mut r: Vec<String> = Vec::new();
    let mut k: usize = 0;
    while k < display_config.elements.len()
        invariant
            k <= els.len(),
            els == display_config.elements@,
            forall|i: int, j: int|
                0 <= i < j < r@.len() ==> (#[trigger] r@[i])@ != (#[trigger] r@[j])@,
            forall|i: int| 0 <= i < r@.len() ==> family_used(els, (#[trigger] r@[i])@),
            forall|q: int|
                0 <= q < k && is_text_element(#[trigger] els[q]) ==> listed(
                    r@,
                    els[q].text_config->0.font_family@,
                ),
        decreases els.len() - k,
    {
        let e = &display_config.elements[k];
        if e.element_type == ElementType::Text {
            match &e.text_config {
                Some(c) => {
                    let mut seen = false;
                    let mut j: usize = 0;
                    while j < r.len()
                        invariant
                            j <= r@.len(),
                            seen ==> listed(r@, c.font_family@),
                            !seen ==> forall|i: int| 0 <= i < j ==> (#[trigger] r@[i])@ != c.font_family@,
                        decreases r@.len() - j,
                    {
                        if crate::render::str_eq(r[j].as_str(), c.font_family.as_str()) {
                            seen = true;
                        }
                        j = j + 1;
                    }
                    if !seen {
                        let ghost old_r = r@;
                        r.push(c.font_family.clone());
                        proof {
                            assert(r@[old_r.len() as int]@ == c.font_family@);
                            assert(uses_family(els[k as int], c.font_family@));
                            assert forall|i: int| 0 <= i < r@.len() implies family_used(
                                els,
                                (#[trigger] r@[i])@,
                            ) by {
                                if i < old_r.len() {
                                    assert(r@[i] == old_r[i]);
                                }
                            }
                            assert forall|q: int|
                                0 <= q < k + 1 && is_text_element(#[trigger] els[q]) implies listed(
                                r@,
                                els[q].text_config->0.font_family@,
                            ) by {
                                if q == k {
                                    assert(r@[old_r.len() as int]@ == c.font_family@);
                                } else {
                                    assert(listed(old_r, els[q].text_config->0.font_family@));
                                    let i = choose|i: int|
                                        0 <= i < old_r.len() && (#[trigger] old_r[i])@
                                            == els[q].text_config->0.font_family@;
                                    assert(r@[i] == old_r[i]);
                                }
                            }
                        }
                    }
                },
                None => {},
            }
        }
        k = k + 1;
    }
    r
}

/// Positions of the elements of one kind, in layout order.
pub fn elements_of_type(display_config: &DisplayConfig, element_type: ElementType) -> (r: Vec<
    usize,
>)
    ensures
        forall|i: int|
            0 <= i < r@.len() ==> (#[trigger] r@[i]) < display_config.elements@.len()
                && display_config.elements@[r@[i] as int].element_type == element_type,
        forall|i: int, j: int| 0 <= i < j < r@.len() ==> (#[trigger] r@[i]) < (#[trigger] r@[j]),
        forall|k: int|
            0 <= k < display_config.elements@.len() && (#[trigger] display_config.elements@[k]).element_type
                == element_type ==> exists|i: int| 0 <= i < r@.len() && r@[i] == k,
{
    let mut r: Vec<usize> = Vec::new();
    let mut k: usize = 0;
    while k < display_config.elements.len()
        invariant
            k <= display_config.elements@.len(),
            forall|i: int|
                0 <= i < r@.len() ==> (#[trigger] r@[i]) < k
                    && display_config.elements@[r@[i] as int].element_type == element_type,
            forall|i: int, j: int| 0 <= i < j < r@.len() ==> (#[trigger] r@[i]) < (#[trigger] r@[j]),
            forall|q: int|
                0 <= q < k && (#[trigger] display_config.elements@[q]).element_type == element_type
                    ==> exists|i: int| 0 <= i < r@.len() && r@[i] == q,
        decreases display_config.elements@.len() - k,
    {
        if display_config.elements[k].element_type == element_type {
            let ghost old_r = r@;
            r.push(k);
            proof {
                assert forall|q: int|
                    0 <= q < k + 1 && (#[trigger] display_config.elements@[q]).element_type
                        == element_type implies exists|i: int| 0 <= i < r@.len() && r@[i] == q by {
                    if q == k {
                        assert(r@[old_r.len() as int] == q);
                    } else {
                        let i = choose|i: int| 0 <= i < old_r.len() && old_r[i] == q;
                        assert(r@[i] == old_r[i]);
                    }
                }
            }
        }
        k = k + 1;
    }
    r
}

// ---- conditional image cache ----
/// Position of the last `/` before `i`, or -1.
pub open spec fn last_slash_before(s: Seq<char>, i: int) -> int
    decreases i,
{
    if i <= 0 || i > s.len() {
        -1
    } else if s[i - 1] == '/' {
        i - 1
    } else {
        last_slash_before(s, i - 1)
    }
}

/// The last component of a `/`-separated path.
pub open spec fn base_name(path: Seq<char>) -> Seq<char> {
    path.skip(last_slash_before(path, path.len() as int) + 1)
}

/// Position of the last `.` before `i`, or -1.
pub open spec fn last_dot_in(s: Seq<char>, i: int) -> int
    decreases i,
{
    if i <= 0 || i > s.len() {
        -1
    } else if s[i - 1] == '.' {
        i - 1
    } else {
        last_dot_in(s, i - 1)
    }
}

/// The file name with its extension replaced by `png`, as `Path::with_extension` does: a
/// leading dot does not start an extension.
pub open spec fn png_name(name: Seq<char>) -> Seq<char> {
    let d = last_dot_in(name, name.len() as int);
    (if d > 0 {
        name.take(d)
    } else {
        name
    }) + ".png"@
}

/// Extension of a file name (after its last dot, the leading dot excluded), if any.
pub open spec fn extension(name: Seq<char>) -> Option<Seq<char>> {
    let d = last_dot_in(name, name.len() as int);
    if d > 0 {
        Some(name.skip(d + 1))
    } else {
        None
    }
}

/// The image formats a conditional image archive may hold, by extension (any letter case).
pub open spec fn is_image_name(name: Seq<char>) -> bool {
    match extension(name) {
        Some(e) => eq_ignore_case(e, "png"@) || eq_ignore_case(e, "jpg"@) || eq_ignore_case(
            e,
            "jpeg"@,
        ) || eq_ignore_case(e, "gif"@) || eq_ignore_case(e, "bmp"@) || eq_ignore_case(e, "webp"@)
            || eq_ignore_case(e, "ico"@) || eq_ignore_case(e, "tif"@) || eq_ignore_case(e, "tiff"@),
        None => false,
    }
}

fn last_dot_index(s: &str, n: usize) -> (r: Option<usize>)
    requires
        n == s@.len(),
    ensures
        match r {
            Some(d) => d < n && last_dot_in(s@, n as int) == d as int,
            None => last_dot_in(s@, n as int) == -1,
        },
{
    let mut i: usize = n;
    while i > 0
        invariant
            i <= n,
            n == s@.len(),
            last_dot_in(s@, n as int) == last_dot_in(s@, i as int),
        decreases i,
    {
        if s.get_char(i - 1) == '.' {
            return Some(i - 1);
        }
        i = i - 1;
    }
    None
}

fn last_slash_index(s: &str, n: usize) -> (r: Option<usize>)
    requires
        n == s@.len(),
    ensures
        match r {
            Some(d) => d < n && last_slash_before(s@, n as int) == d as int,
            None => last_slash_before(s@, n as int) == -1,
        },
{
    let mut i: usize = n;
    while i > 0
        invariant
            i <= n,
            n == s@.len(),
            last_slash_before(s@, n as int) == last_slash_before(s@, i as int),
        decreases i,
    {
        if s.get_char(i - 1) == '/' {
            return Some(i - 1);
        }
        i = i - 1;
    }
    None
}

/// Whether a file name has one of the image extensions.
pub fn is_image_file_name(name: &str) -> (r: bool)
    ensures
        r == is_image_name(name@),
{
    let n = name.unicode_len();
    match last_dot_index(name, n) {
        Some(d) if d > 0 => {
            let e = name.substring_char(d + 1, n);
            proof {
                assert(extension(name@) == Some(e@));
            }
            eq_ignore_case_exec(e, "png") || eq_ignore_case_exec(e, "jpg") || eq_ignore_case_exec(
                e,
                "jpeg",
            ) || eq_ignore_case_exec(e, "gif") || eq_ignore_case_exec(e, "bmp")
                || eq_ignore_case_exec(e, "webp") || eq_ignore_case_exec(e, "ico")
                || eq_ignore_case_exec(e, "tif") || eq_ignore_case_exec(e, "tiff")
        },
        _ => false,
    }
}

/// Where an extracted image ends up in the element's cache directory: its base name, with
/// the extension replaced by `png`.
pub fn cached_image_name(path: &str) -> (r: String)
    ensures
        r@ == png_name(base_name(path@)),
{
    let n = path.unicode_len();
    let start: usize = match last_slash_index(path, n) {
        Some(d) => d + 1,
        None => 0,
    };
    let base = path.substring_char(start, n);
    assert(base@ == base_name(path@));
    let m = base.unicode_len();
    let mut r = match last_dot_index(base, m) {
        Some(d) if d > 0 => String::from_str(base.substring_char(0, d)),
        _ => String::from_str(base),
    };
    r.append(".png");
    r
}

proof fn lemma_last_slash_after(s: Seq<char>, i: int)
    requires
        0 <= i <= s.len(),
    ensures
        -1 <= last_slash_before(s, i) < i,
        forall|k: int| last_slash_before(s, i) < k < i ==> s[k] != '/',
    decreases i,
{
    if i > 0 && s[i - 1] != '/' {
        lemma_last_slash_after(s, i - 1);
    }
}

proof fn lemma_last_dot_bounds(s: Seq<char>, i: int)
    requires
        0 <= i <= s.len(),
    ensures
        -1 <= last_dot_in(s, i) < i,
    decreases i,
{
    if i > 0 && s[i - 1] != '.' {
        lemma_last_dot_bounds(s, i - 1);
    }
}

/// The cache directory of a conditional image is flat and holds PNG files only: the name
/// every extracted image is stored under has no directory part and ends in `.png`.
pub proof fn lemma_cached_names_flat_png(path: Seq<char>)
    ensures
        !contains(png_name(base_name(path)), "/"@),
        ends_with(png_name(base_name(path)), ".png"@),
{
    reveal_strlit("/");
    reveal_strlit(".png");
    let b = base_name(path);
    lemma_last_slash_after(path, path.len() as int);
    let j = last_slash_before(path, path.len() as int);
    assert forall|k: int| 0 <= k < b.len() implies b[k] != '/' by {
        assert(b[k] == path[j + 1 + k]);
    }
    lemma_last_dot_bounds(b, b.len() as int);
    let d = last_dot_in(b, b.len() as int);
    let stem = if d > 0 {
        b.take(d)
    } else {
        b
    };
    let name = png_name(b);
    assert(name == stem + ".png"@);
    assert forall|k: int| 0 <= k < name.len() implies name[k] != '/' by {
        if k < stem.len() {
            assert(name[k] == stem[k]);
            assert(stem[k] == b[k]);
        } else {
            assert(name[k] == ".png"@[k - stem.len()]);
        }
    }
    if contains(name, "/"@) {
        let i = choose|i: int| crate::strings::contains_at(name, "/"@, i);
        assert(name.subrange(i, i + 1)[0] == name[i]);
    }
    assert(name.skip(name.len() - 4) =~= ".png"@);
}

} // verus!
