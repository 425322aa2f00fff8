//! Machine images: which family a launch uses, and what the families offer.

use vstd::prelude::*;
use vstd::utf8::encode_utf8;

use crate::model::{Image, ImageFamilySummary};
use crate::text::{
    ascending, byte_len, insert_ascending, is_blank, is_white_space,
    law_ascending_is_determined_by_its_set, law_text_less_is_a_strict_total_order,
    law_trimmed_empty_iff_blank, law_trimmed_ignores_padding, law_trimmed_takes_only_the_ends,
    law_trimmed_twice, law_trimming_finds_the_core, lemma_insert_at_its_place, lemma_push_to_set,
    str_less, str_same, text_less, texts, trimmed,
};

verus! {

/// The family that an instance is launched with when none is asked for: Lambda Stack on Ubuntu
/// 24.04. (The service's own default, for a launch that names no image, is Lambda Stack on Ubuntu
/// 22.04.)
pub const DEFAULT_IMAGE_FAMILY: &'static str = "lambda-stack-24-04";

/// The family that an image argument stands for: what is left of it after trimming, or the
/// default where nothing is left or nothing was given.
pub open spec fn resolved_family(image: Option<Seq<char>>) -> Seq<char> {
    match image {
        Some(s) if trimmed(s).len() > 0 => trimmed(s),
        _ => DEFAULT_IMAGE_FAMILY@,
    }
}

/// The text of an optional argument.
pub open spec fn opt_text(arg: Option<&str>) -> Option<Seq<char>> {
    match arg {
        Some(s) => Some(s@),
        None => None,
    }
}

/// Resolves an optional image argument to the family that will be used.
///
/// Blank input counts as not given, so that no empty family is ever asked for; white space around
/// a real value is dropped.
pub fn resolve_image_family(image: Option<&str>) -> (family: &str)
    ensures
        family@ == resolved_family(opt_text(image)),
{
    match image {
        Some(s) => {
            let t = s.trim();
            if t.is_empty() {
                DEFAULT_IMAGE_FAMILY
            } else {
                t
            }
        },
        None => DEFAULT_IMAGE_FAMILY,
    }
}

/// A summary, as texts.
pub struct FamilyRow {
    pub family: Seq<char>,
    pub description: Seq<char>,
    pub architectures: Seq<Seq<char>>,
    pub regions: Seq<Seq<char>>,
}

impl View for ImageFamilySummary {
    type V = FamilyRow;

    open spec fn view(&self) -> FamilyRow {
        FamilyRow {
            family: self.family@,
            description: self.description@,
            architectures: texts(self.architectures@),
            regions: texts(self.regions@),
        }
    }
}

/// The images of one family, in their order.
pub open spec fn of_family(images: Seq<Image>, family: Seq<char>) -> Seq<Image> {
    images.filter(|image: Image| image.family@ == family)
}

pub open spec fn image_families(images: Seq<Image>) -> Seq<Seq<char>> {
    images.map_values(|image: Image| image.family@)
}

pub open spec fn image_descriptions(images: Seq<Image>) -> Seq<Seq<char>> {
    images.map_values(|image: Image| image.description@)
}

pub open spec fn image_architectures(images: Seq<Image>) -> Seq<Seq<char>> {
    images.map_values(|image: Image| image.architecture@)
}

pub open spec fn image_regions(images: Seq<Image>) -> Seq<Seq<char>> {
    images.map_values(|image: Image| image.region.name@)
}

pub open spec fn row_families(rows: Seq<FamilyRow>) -> Seq<Seq<char>> {
    rows.map_values(|row: FamilyRow| row.family)
}

pub open spec fn summary_rows(summaries: Seq<ImageFamilySummary>) -> Seq<FamilyRow> {
    summaries.map_values(|summary: ImageFamilySummary| summary@)
}

/// `d` is the shortest of `ds`, counted in bytes; of several that are equally short, the first.
pub open spec fn first_shortest(ds: Seq<Seq<char>>, d: Seq<char>) -> bool {
    exists|i: int|
        #![trigger ds[i]]
        {
            &&& 0 <= i < ds.len()
            &&& ds[i] == d
            &&& forall|j: int|
                0 <= j < ds.len() ==> byte_len(d) <= byte_len(#[trigger] ds[j])
            &&& forall|j: int| 0 <= j < i ==> byte_len(d) < byte_len(#[trigger] ds[j])
        }
}

/// `row` is what the images `members` of one family come to.
pub open spec fn row_of(members: Seq<Image>, row: FamilyRow) -> bool {
    &&& first_shortest(image_descriptions(members), row.description)
    &&& ascending(row.architectures)
    &&& row.architectures.to_set() == image_architectures(members).to_set()
    &&& ascending(row.regions)
    &&& row.regions.to_set() == image_regions(members).to_set()
}

/// `rows` is the summary of `images`: one row for each family, in the order of the family names.
pub open spec fn summarized(images: Seq<Image>, rows: Seq<FamilyRow>) -> bool {
    &&& ascending(row_families(rows))
    &&& row_families(rows).to_set() == image_families(images).to_set()
    &&& forall|k: int|
        0 <= k < rows.len() ==> row_of(of_family(images, (#[trigger] rows[k]).family), rows[k])
}

/// Two images that count alike: they differ at most in id, name, version and the description of
/// the region.
pub open spec fn alike(image: Image, other: Image) -> bool {
    &&& image.family@ == other.family@
    &&& image.description@ == other.description@
    &&& image.architecture@ == other.architecture@
    &&& image.region.name@ == other.region.name@
}

/// There is an image among `images` that counts like `image`.
pub open spec fn has_alike(images: Seq<Image>, image: Image) -> bool {
    exists|k: int| 0 <= k < images.len() && alike(image, #[trigger] images[k])
}

/// Every image of `images` has one that counts like it among `others`.
pub open spec fn all_alike(images: Seq<Image>, others: Seq<Image>) -> bool {
    forall|i: int| 0 <= i < images.len() ==> has_alike(others, #[trigger] images[i])
}

proof fn lemma_of_family_push(images: Seq<Image>, image: Image, family: Seq<char>)
    ensures
        image.family@ == family ==> of_family(images.push(image), family) == of_family(
            images,
            family,
        ).push(image),
        image.family@ != family ==> of_family(images.push(image), family) == of_family(
            images,
            family,
        ),
{
    reveal(Seq::filter);
    assert(images.push(image).drop_last() =~= images);
}

proof fn lemma_of_family_empty(images: Seq<Image>, family: Seq<char>)
    requires
        !image_families(images).contains(family),
    ensures
        of_family(images, family).len() == 0,
    decreases images.len(),
{
    reveal(Seq::filter);
    if images.len() > 0 {
        let shorter = images.drop_last();
        assert forall|f: Seq<char>| image_families(shorter).contains(f) implies image_families(
            images,
        ).contains(f) by {
            let k = choose|k: int|
                0 <= k < shorter.len() && image_families(shorter)[k] == f;
            assert(image_families(images)[k] == f);
        }
        lemma_of_family_empty(shorter, family);
        assert(image_families(images)[images.len() - 1] == images.last().family@);
    }
}

/// What one more image of a family does to the row of that family.
proof fn lemma_row_grows(members: Seq<Image>, row: FamilyRow, image: Image, grown: FamilyRow)
    requires
        row_of(members, row),
        grown.description == if byte_len(image.description@) < byte_len(row.description) {
            image.description@
        } else {
            row.description
        },
        ascending(grown.architectures),
        grown.architectures.to_set() == row.architectures.to_set().insert(image.architecture@),
        ascending(grown.regions),
        grown.regions.to_set() == row.regions.to_set().insert(image.region.name@),
    ensures
        row_of(members.push(image), grown),
{
    let more = members.push(image);
    let ds = image_descriptions(members);
    let ds2 = image_descriptions(more);
    assert(ds2 =~= ds.push(image.description@));
    assert(image_architectures(more) =~= image_architectures(members).push(image.architecture@));
    assert(image_regions(more) =~= image_regions(members).push(image.region.name@));
    lemma_push_to_set(image_architectures(members), image.architecture@);
    lemma_push_to_set(image_regions(members), image.region.name@);
    let i = choose|i: int|
        #![trigger ds[i]]
        {
            &&& 0 <= i < ds.len()
            &&& ds[i] == row.description
            &&& forall|j: int|
                0 <= j < ds.len() ==> byte_len(row.description) <= byte_len(#[trigger] ds[j])
            &&& forall|j: int|
                0 <= j < i ==> byte_len(row.description) < byte_len(#[trigger] ds[j])
        };
    let w = if byte_len(image.description@) < byte_len(row.description) {
        ds.len() as int
    } else {
        i
    };
    assert(ds2[w] == grown.description);
    assert forall|j: int| 0 <= j < ds2.len() implies byte_len(grown.description) <= byte_len(
        #[trigger] ds2[j],
    ) by {
        if j < ds.len() {
            assert(ds2[j] == ds[j]);
        }
    }
    assert forall|j: int| 0 <= j < w implies byte_len(grown.description) < byte_len(
        #[trigger] ds2[j],
    ) by {
        assert(ds2[j] == ds[j]);
    }
}

/// The row of a family with a single image.
proof fn lemma_row_of_one(image: Image, row: FamilyRow)
    requires
        row.description == image.description@,
        row.architectures == seq![image.architecture@],
        row.regions == seq![image.region.name@],
    ensures
        row_of(Seq::<Image>::empty().push(image), row),
{
    let one = Seq::<Image>::empty().push(image);
    assert(image_descriptions(one) =~= seq![image.description@]);
    assert(image_descriptions(one)[0] == row.description);
    assert(image_architectures(one) =~= row.architectures);
    assert(image_regions(one) =~= row.regions);
}

/// One more image of a family that has a row already.
proof fn lemma_known_family(
    images: Seq<Image>,
    rows: Seq<FamilyRow>,
    image: Image,
    at: int,
    grown: FamilyRow,
)
    requires
        summarized(images, rows),
        0 <= at < rows.len(),
        rows[at].family == image.family@,
        grown.family == image.family@,
        row_of(of_family(images, image.family@).push(image), grown),
    ensures
        summarized(images.push(image), rows.update(at, grown)),
{
    let more = images.push(image);
    let after = rows.update(at, grown);
    assert(row_families(after) =~= row_families(rows));
    assert(image_families(more) =~= image_families(images).push(image.family@));
    lemma_push_to_set(image_families(images), image.family@);
    assert(row_families(rows)[at] == image.family@);
    assert(image_families(images).to_set().contains(image.family@));
    assert(image_families(more).to_set() =~= image_families(images).to_set());
    assert forall|k: int| 0 <= k < after.len() implies row_of(
        of_family(more, (#[trigger] after[k]).family),
        after[k],
    ) by {
        lemma_of_family_push(images, image, after[k].family);
        if k != at {
            let names = row_families(rows);
            assert(names[k] == rows[k].family && names[at] == rows[at].family);
            if k < at {
                assert(text_less(names[k], names[at]));
            } else {
                assert(text_less(names[at], names[k]));
            }
            law_text_less_is_a_strict_total_order(names[at], names[k], names[k]);
            assert(rows[k] == after[k]);
        }
    }
}

/// The first image of a family.
proof fn lemma_new_family(
    images: Seq<Image>,
    rows: Seq<FamilyRow>,
    image: Image,
    at: int,
    row: FamilyRow,
)
    requires
        summarized(images, rows),
        0 <= at <= rows.len(),
        row.family == image.family@,
        row_of(Seq::<Image>::empty().push(image), row),
        forall|k: int| 0 <= k < at ==> text_less((#[trigger] rows[k]).family, image.family@),
        at < rows.len() ==> text_less(image.family@, rows[at].family),
    ensures
        summarized(images.push(image), rows.insert(at, row)),
{
    let more = images.push(image);
    let after = rows.insert(at, row);
    let before_names = row_families(rows);
    let names = row_families(after);
    assert(names =~= before_names.insert(at, image.family@));
    assert forall|k: int| 0 <= k < at implies text_less(
        #[trigger] before_names[k],
        image.family@,
    ) by {
        assert(before_names[k] == rows[k].family);
    }
    lemma_insert_at_its_place(before_names, at, image.family@);
    assert(!before_names.to_set().contains(image.family@));
    assert(!image_families(images).contains(image.family@));
    lemma_of_family_empty(images, image.family@);
    assert(of_family(images, image.family@) =~= Seq::<Image>::empty());
    assert(image_families(more) =~= image_families(images).push(image.family@));
    lemma_push_to_set(image_families(images), image.family@);
    assert forall|k: int| 0 <= k < after.len() implies row_of(
        of_family(more, (#[trigger] after[k]).family),
        after[k],
    ) by {
        lemma_of_family_push(images, image, after[k].family);
        if k != at {
            let old_k = if k < at {
                k
            } else {
                k - 1
            };
            assert(after[k] == rows[old_k]);
            assert(before_names[old_k] == rows[old_k].family);
        }
    }
}

/// Collapses a list of images into one entry for each family, with the architectures and the
/// regions that the family is available in. Sorted by family name.
pub fn summarize_image_families(images: &[Image]) -> (summaries: Vec<ImageFamilySummary>)
    ensures
        summarized(images@, summary_rows(summaries@)),
{
    let mut summaries: Vec<ImageFamilySummary> = Vec::new();
    let mut n: usize = 0;
    proof {
        let none = images@.take(0);
        assert(image_families(none) =~= Seq::<Seq<char>>::empty());
        assert(row_families(summary_rows(summaries@)) =~= Seq::<Seq<char>>::empty());
    }
    while n < images.len()
        invariant
            n <= images@.len(),
            summarized(images@.take(n as int), summary_rows(summaries@)),
        decreases images@.len() - n,
    {
        let image = &images[n];
        let ghost seen = images@.take(n as int);
        let ghost rows = summary_rows(summaries@);
        assert(images@.take(n + 1) =~= seen.push(*image));
        let mut at: usize = 0;
        while at < summaries.len() && str_less(
            summaries[at].family.as_str(),
            image.family.as_str(),
        )
            invariant
                at <= summaries@.len(),
                rows == summary_rows(summaries@),
                forall|k: int|
                    0 <= k < at ==> text_less((#[trigger] rows[k]).family, image.family@),
            decreases summaries@.len() - at,
        {
            assert(rows[at as int] == summaries@[at as int]@);
            at += 1;
        }
        if at < summaries.len() && str_same(summaries[at].family.as_str(), image.family.as_str()) {
            let mut summary = summaries.remove(at);
            let ghost row = summary@;
            assert(rows[at as int] == row);
            // Prefer the shortest description of a family: the longer ones carry a version.
            if image.description.as_str().as_bytes().len()
                < summary.description.as_str().as_bytes().len() {
                summary.description = image.description.clone();
            }
            insert_ascending(&mut summary.architectures, &image.architecture);
            insert_ascending(&mut summary.regions, &image.region.name);
            let ghost grown = summary@;
            summaries.insert(at, summary);
            proof {
                lemma_row_grows(of_family(seen, image.family@), row, *image, grown);
                lemma_known_family(seen, rows, *image, at as int, grown);
                assert(summary_rows(summaries@) =~= rows.update(at as int, grown));
            }
        } else {
            let mut architectures: Vec<String> = Vec::new();
            architectures.push(image.architecture.clone());
            let mut regions: Vec<String> = Vec::new();
            regions.push(image.region.name.clone());
            let summary = ImageFamilySummary {
                family: image.family.clone(),
                description: image.description.clone(),
                architectures,
                regions,
            };
            let ghost row = summary@;
            proof {
                assert(row.architectures =~= seq![image.architecture@]);
                assert(row.regions =~= seq![image.region.name@]);
                lemma_row_of_one(*image, row);
                if at < rows.len() {
                    assert(rows[at as int] == summaries@[at as int]@);
                    law_text_less_is_a_strict_total_order(
                        rows[at as int].family,
                        image.family@,
                        image.family@,
                    );
                }
                lemma_new_family(seen, rows, *image, at as int, row);
            }
            summaries.insert(at, summary);
            assert(summary_rows(summaries@) =~= rows.insert(at as int, row));
        }
        n += 1;
    }
    assert(images@.take(n as int) =~= images@);
    summaries
}

/// Whatever is asked for, the family that is used is not empty and has no white space around it;
/// resolving it again changes nothing.
pub proof fn law_resolved_family_is_clean(image: Option<Seq<char>>)
    ensures
        resolved_family(image).len() > 0,
        trimmed(resolved_family(image)) == resolved_family(image),
        resolved_family(Some(resolved_family(image))) == resolved_family(image),
{
    reveal_strlit("lambda-stack-24-04");
    match image {
        Some(s) => law_trimmed_twice(s),
        None => {},
    }
}

/// No image, or nothing but white space, means the default family; anything else is used, trimmed.
pub proof fn law_blank_image_means_default(image: Option<Seq<char>>)
    ensures
        (image is None || is_blank(image->0)) ==> resolved_family(image) == DEFAULT_IMAGE_FAMILY@,
        (image is Some && !is_blank(image->0)) ==> resolved_family(image) == trimmed(image->0),
{
    if image is Some {
        law_trimmed_empty_iff_blank(image->0);
    }
}

/// White space around an image name makes no difference to the family.
pub proof fn law_padding_an_image_changes_nothing(
    front: Seq<char>,
    image: Seq<char>,
    back: Seq<char>,
)
    requires
        is_blank(front),
        is_blank(back),
    ensures
        resolved_family(Some(front + image + back)) == resolved_family(Some(image)),
{
    law_trimmed_ignores_padding(front, image, back);
}

/// Of one list of images there is one summary.
pub proof fn law_summary_is_unique(images: Seq<Image>, rows: Seq<FamilyRow>, others: Seq<FamilyRow>)
    requires
        summarized(images, rows),
        summarized(images, others),
    ensures
        rows == others,
{
    let a = row_families(rows);
    let b = row_families(others);
    law_ascending_is_determined_by_its_set(a, b);
    assert(a.len() == rows.len() && b.len() == others.len());
    assert forall|k: int| 0 <= k < rows.len() implies #[trigger] rows[k] == others[k] by {
        assert(a[k] == rows[k].family && b[k] == others[k].family);
        let members = of_family(images, rows[k].family);
        law_ascending_is_determined_by_its_set(rows[k].architectures, others[k].architectures);
        law_ascending_is_determined_by_its_set(rows[k].regions, others[k].regions);
        lemma_first_shortest_unique(
            image_descriptions(members),
            rows[k].description,
            others[k].description,
        );
    }
    assert(rows =~= others);
}

proof fn lemma_first_shortest_unique(ds: Seq<Seq<char>>, d: Seq<char>, e: Seq<char>)
    requires
        first_shortest(ds, d),
        first_shortest(ds, e),
    ensures
        d == e,
{
    let i = choose|i: int|
        #![trigger ds[i]]
        {
            &&& 0 <= i < ds.len()
            &&& ds[i] == d
            &&& forall|j: int| 0 <= j < ds.len() ==> byte_len(d) <= byte_len(#[trigger] ds[j])
            &&& forall|j: int| 0 <= j < i ==> byte_len(d) < byte_len(#[trigger] ds[j])
        };
    let k = choose|k: int|
        #![trigger ds[k]]
        {
            &&& 0 <= k < ds.len()
            &&& ds[k] == e
            &&& forall|j: int| 0 <= j < ds.len() ==> byte_len(e) <= byte_len(#[trigger] ds[j])
            &&& forall|j: int| 0 <= j < k ==> byte_len(e) < byte_len(#[trigger] ds[j])
        };
    assert(byte_len(d) <= byte_len(ds[k]));
    assert(byte_len(e) <= byte_len(ds[i]));
}

/// An image is among those of a family exactly when it is in the list and of that family.
proof fn lemma_of_family_contains(images: Seq<Image>, family: Seq<char>, image: Image)
    ensures
        of_family(images, family).contains(image) <==> images.contains(image) && image.family@
            == family,
    decreases images.len(),
{
    reveal(Seq::filter);
    if images.len() > 0 {
        let shorter = images.drop_last();
        let last = images.last();
        assert(images =~= shorter.push(last));
        lemma_of_family_contains(shorter, family, image);
        lemma_of_family_push(shorter, last, family);
        assert(images.contains(image) <==> shorter.contains(image) || image == last) by {
            assert(images[images.len() - 1] == last);
            if shorter.contains(image) {
                let k = choose|k: int| 0 <= k < shorter.len() && shorter[k] == image;
                assert(images[k] == image);
            }
        }
        let members = of_family(shorter, family);
        if last.family@ == family {
            let more = members.push(last);
            assert(more.contains(image) <==> members.contains(image) || image == last) by {
                assert(more[members.len() as int] == last);
                if members.contains(image) {
                    let k = choose|k: int| 0 <= k < members.len() && members[k] == image;
                    assert(more[k] == image);
                }
            }
        }
    }
}

/// Every image is covered: its family has a row, which lists its architecture and its region and
/// whose description is no longer than its own.
pub proof fn law_every_image_is_covered(images: Seq<Image>, rows: Seq<FamilyRow>, i: int)
    requires
        summarized(images, rows),
        0 <= i < images.len(),
    ensures
        exists|k: int|
            #![trigger rows[k]]
            {
                &&& 0 <= k < rows.len()
                &&& rows[k].family == images[i].family@
                &&& rows[k].architectures.contains(images[i].architecture@)
                &&& rows[k].regions.contains(images[i].region.name@)
                &&& byte_len(rows[k].description) <= byte_len(images[i].description@)
            },
{
    let image = images[i];
    assert(image_families(images)[i] == image.family@);
    assert(image_families(images).to_set().contains(image.family@));
    let names = row_families(rows);
    assert(names.contains(image.family@));
    let k = choose|k: int| 0 <= k < names.len() && names[k] == image.family@;
    let members = of_family(images, rows[k].family);
    lemma_of_family_contains(images, rows[k].family, image);
    assert(images.contains(images[i]));
    let m = choose|m: int| 0 <= m < members.len() && members[m] == image;
    assert(image_architectures(members)[m] == image.architecture@);
    assert(image_architectures(members).to_set().contains(image.architecture@));
    assert(image_regions(members)[m] == image.region.name@);
    assert(image_regions(members).to_set().contains(image.region.name@));
    assert(image_descriptions(members)[m] == image.description@);
    assert(rows[k].architectures.to_set().contains(image.architecture@));
    assert(rows[k].regions.to_set().contains(image.region.name@));
    assert(0 <= k < rows.len() && rows[k].family == image.family@);
}

/// The images of a family are all the images of that family among themselves.
proof fn lemma_of_family_twice(images: Seq<Image>, family: Seq<char>)
    ensures
        of_family(of_family(images, family), family) == of_family(images, family),
    decreases images.len(),
{
    reveal(Seq::filter);
    if images.len() > 0 {
        let shorter = images.drop_last();
        let last = images.last();
        lemma_of_family_twice(shorter, family);
        lemma_of_family_push(of_family(shorter, family), last, family);
    }
}

/// The row of a family rests on the images of that family alone: they have that row for their whole
/// summary.
pub proof fn law_row_rests_on_its_own_images(images: Seq<Image>, rows: Seq<FamilyRow>, k: int)
    requires
        summarized(images, rows),
        0 <= k < rows.len(),
    ensures
        summarized(of_family(images, rows[k].family), seq![rows[k]]),
{
    let family = rows[k].family;
    let members = of_family(images, family);
    let names = image_families(members);
    let only = seq![rows[k]];
    lemma_of_family_twice(images, family);
    assert(row_families(only) =~= seq![family]);
    assert forall|i: int| 0 <= i < names.len() implies #[trigger] names[i] == family by {
        lemma_of_family_contains(images, family, members[i]);
        assert(members.contains(members[i]));
    }
    assert(members.len() > 0) by {
        assert(first_shortest(image_descriptions(members), rows[k].description));
    }
    assert(names[0] == family);
    assert(row_families(only)[0] == family);
    assert(row_families(only).to_set() =~= names.to_set());
}

/// Images that are listed once more at the end change nothing, and neither do images that count
/// like one that is listed.
pub proof fn law_repeated_images_change_nothing(
    images: Seq<Image>,
    rows: Seq<FamilyRow>,
    repeats: Seq<Image>,
)
    requires
        summarized(images, rows),
        all_alike(repeats, images),
    ensures
        summarized(images + repeats, rows),
    decreases repeats.len(),
{
    if repeats.len() == 0 {
        assert(images + repeats =~= images);
    } else {
        let fewer = repeats.drop_last();
        let image = repeats.last();
        let before = images + fewer;
        assert forall|i: int| 0 <= i < fewer.len() implies has_alike(
            images,
            #[trigger] fewer[i],
        ) by {
            assert(fewer[i] == repeats[i]);
        }
        law_repeated_images_change_nothing(images, rows, fewer);
        assert(images + repeats =~= before.push(image));
        assert(has_alike(images, repeats[repeats.len() - 1]));
        let i = choose|i: int| 0 <= i < images.len() && alike(image, #[trigger] images[i]);
        assert(before[i] == images[i]);
        law_every_image_is_covered(before, rows, i);
        let at = choose|k: int|
            #![trigger rows[k]]
            {
                &&& 0 <= k < rows.len()
                &&& rows[k].family == image.family@
                &&& rows[k].architectures.contains(image.architecture@)
                &&& rows[k].regions.contains(image.region.name@)
                &&& byte_len(rows[k].description) <= byte_len(image.description@)
            };
        let row = rows[at];
        assert(row.architectures.to_set() =~= row.architectures.to_set().insert(
            image.architecture@,
        ));
        assert(row.regions.to_set() =~= row.regions.to_set().insert(image.region.name@));
        lemma_row_grows(of_family(before, image.family@), row, image, row);
        lemma_known_family(before, rows, image, at, row);
        assert(rows.update(at, row) =~= rows);
    }
}

/// The order of the images, and how often one is listed, changes neither the families nor their
/// architectures and regions, nor how short the description is. Images that count alike stand for
/// each other.
pub proof fn law_summary_ignores_the_order_of_images(
    images: Seq<Image>,
    rows: Seq<FamilyRow>,
    shuffled: Seq<Image>,
    others: Seq<FamilyRow>,
)
    requires
        summarized(images, rows),
        summarized(shuffled, others),
        all_alike(images, shuffled),
        all_alike(shuffled, images),
    ensures
        rows.len() == others.len(),
        forall|k: int|
            0 <= k < rows.len() ==> {
                &&& (#[trigger] rows[k]).family == others[k].family
                &&& rows[k].architectures == others[k].architectures
                &&& rows[k].regions == others[k].regions
                &&& byte_len(rows[k].description) == byte_len(others[k].description)
            },
{
    lemma_same_images(images, shuffled);
    let a = row_families(rows);
    let b = row_families(others);
    law_ascending_is_determined_by_its_set(a, b);
    assert(a.len() == rows.len() && b.len() == others.len());
    assert forall|k: int| 0 <= k < rows.len() implies {
        &&& (#[trigger] rows[k]).family == others[k].family
        &&& rows[k].architectures == others[k].architectures
        &&& rows[k].regions == others[k].regions
        &&& byte_len(rows[k].description) == byte_len(others[k].description)
    } by {
        assert(a[k] == rows[k].family && b[k] == others[k].family);
        let family = rows[k].family;
        let members = of_family(images, family);
        let mates = of_family(shuffled, family);
        lemma_families_stay_alike(images, shuffled, family);
        lemma_families_stay_alike(shuffled, images, family);
        lemma_same_images(members, mates);
        law_ascending_is_determined_by_its_set(rows[k].architectures, others[k].architectures);
        law_ascending_is_determined_by_its_set(rows[k].regions, others[k].regions);
        lemma_shortest_over_alike(members, rows[k].description, mates, others[k].description);
        lemma_shortest_over_alike(mates, others[k].description, members, rows[k].description);
    }
}

proof fn lemma_families_stay_alike(images: Seq<Image>, shuffled: Seq<Image>, family: Seq<char>)
    requires
        all_alike(images, shuffled),
    ensures
        all_alike(of_family(images, family), of_family(shuffled, family)),
{
    let members = of_family(images, family);
    let mates = of_family(shuffled, family);
    assert forall|m: int| 0 <= m < members.len() implies has_alike(mates, #[trigger] members[m]) by {
        let image = members[m];
        lemma_of_family_contains(images, family, image);
        assert(members.contains(image));
        let i = choose|i: int| 0 <= i < images.len() && images[i] == image;
        assert(has_alike(shuffled, images[i]));
        let k = choose|k: int| 0 <= k < shuffled.len() && alike(image, #[trigger] shuffled[k]);
        lemma_of_family_contains(shuffled, family, shuffled[k]);
        assert(shuffled.contains(shuffled[k]));
        let n = choose|n: int| 0 <= n < mates.len() && mates[n] == shuffled[k];
        assert(alike(image, mates[n]));
    }
}

proof fn lemma_shortest_over_alike(
    members: Seq<Image>,
    d: Seq<char>,
    mates: Seq<Image>,
    e: Seq<char>,
)
    requires
        first_shortest(image_descriptions(members), d),
        first_shortest(image_descriptions(mates), e),
        all_alike(members, mates),
    ensures
        byte_len(e) <= byte_len(d),
{
    let ds = image_descriptions(members);
    let i = choose|i: int|
        #![trigger ds[i]]
        {
            &&& 0 <= i < ds.len()
            &&& ds[i] == d
            &&& forall|j: int| 0 <= j < ds.len() ==> byte_len(d) <= byte_len(#[trigger] ds[j])
            &&& forall|j: int| 0 <= j < i ==> byte_len(d) < byte_len(#[trigger] ds[j])
        };
    assert(has_alike(mates, members[i]));
    let k = choose|k: int| 0 <= k < mates.len() && alike(members[i], #[trigger] mates[k]);
    assert(image_descriptions(mates)[k] == d);
}

/// Two lists of images that count alike have the same families, architectures and regions.
proof fn lemma_same_images(images: Seq<Image>, shuffled: Seq<Image>)
    requires
        all_alike(images, shuffled),
        all_alike(shuffled, images),
    ensures
        image_families(images).to_set() == image_families(shuffled).to_set(),
        image_architectures(images).to_set() == image_architectures(shuffled).to_set(),
        image_regions(images).to_set() == image_regions(shuffled).to_set(),
{
    lemma_images_carry_over(images, shuffled);
    lemma_images_carry_over(shuffled, images);
    assert(image_families(images).to_set() =~= image_families(shuffled).to_set());
    assert(image_architectures(images).to_set() =~= image_architectures(shuffled).to_set());
    assert(image_regions(images).to_set() =~= image_regions(shuffled).to_set());
}

proof fn lemma_images_carry_over(images: Seq<Image>, shuffled: Seq<Image>)
    requires
        all_alike(images, shuffled),
    ensures
        forall|t: Seq<char>|
            image_families(images).contains(t) ==> image_families(shuffled).contains(t),
        forall|t: Seq<char>|
            image_architectures(images).contains(t) ==> image_architectures(shuffled).contains(t),
        forall|t: Seq<char>|
            image_regions(images).contains(t) ==> image_regions(shuffled).contains(t),
{
    assert forall|t: Seq<char>| image_families(images).contains(t) implies image_families(
        shuffled,
    ).contains(t) by {
        let i = choose|i: int| 0 <= i < images.len() && image_families(images)[i] == t;
        assert(has_alike(shuffled, images[i]));
        let k = choose|k: int| 0 <= k < shuffled.len() && alike(images[i], #[trigger] shuffled[k]);
        assert(image_families(shuffled)[k] == t);
    }
    assert forall|t: Seq<char>| image_architectures(images).contains(t) implies image_architectures(
        shuffled,
    ).contains(t) by {
        let i = choose|i: int| 0 <= i < images.len() && image_architectures(images)[i] == t;
        assert(has_alike(shuffled, images[i]));
        let k = choose|k: int| 0 <= k < shuffled.len() && alike(images[i], #[trigger] shuffled[k]);
        assert(image_architectures(shuffled)[k] == t);
    }
    assert forall|t: Seq<char>| image_regions(images).contains(t) implies image_regions(
        shuffled,
    ).contains(t) by {
        let i = choose|i: int| 0 <= i < images.len() && image_regions(images)[i] == t;
        assert(has_alike(shuffled, images[i]));
        let k = choose|k: int| 0 <= k < shuffled.len() && alike(images[i], #[trigger] shuffled[k]);
        assert(image_regions(shuffled)[k] == t);
    }
}

/// The family of an image argument: with none, or with nothing but white space, Lambda Stack 24.04;
/// else the argument without the white space around it.
pub proof fn law_family_is_the_core_of_the_image(image: Option<&str>)
    ensures
        ({
            let family = resolved_family(opt_text(image));
            &&& family.len() > 0
            &&& !is_white_space(family[0])
            &&& !is_white_space(family[family.len() - 1])
            &&& image is None ==> family == "lambda-stack-24-04"@
            &&& image is Some && is_blank(image->0@) ==> family == "lambda-stack-24-04"@
            &&& image is Some && !is_blank(image->0@) ==> exists|
                front: Seq<char>,
                back: Seq<char>,
            |
                #![trigger is_blank(front), is_blank(back)]
                is_blank(front) && is_blank(back) && image->0@ == front + family + back
        }),
{
    reveal_strlit("lambda-stack-24-04");
    law_blank_image_means_default(opt_text(image));
    if image is Some {
        law_trimmed_takes_only_the_ends(image->0@);
        law_trimmed_empty_iff_blank(image->0@);
    }
}

/// A family can be asked for with any white space around it.
pub proof fn law_padded_family_is_found(front: Seq<char>, family: Seq<char>, back: Seq<char>)
    requires
        is_blank(front),
        is_blank(back),
        family.len() > 0,
        !is_white_space(family[0]),
        !is_white_space(family[family.len() - 1]),
    ensures
        resolved_family(Some(front + family + back)) == family,
{
    law_trimming_finds_the_core(front, family, back);
}

/// The description of a family, over the list of images: it is that of an image of the family; no
/// image of the family has a shorter one, and those that come earlier in the list have longer ones.
proof fn lemma_description_over_all_images(images: Seq<Image>, family: Seq<char>, d: Seq<char>)
    requires
        first_shortest(image_descriptions(of_family(images, family)), d),
    ensures
        exists|i: int|
            #![trigger images[i]]
            {
                &&& 0 <= i < images.len()
                &&& images[i].family@ == family
                &&& images[i].description@ == d
                &&& forall|j: int|
                    0 <= j < images.len() && (#[trigger] images[j]).family@ == family
                        ==> encode_utf8(d).len() <= encode_utf8(images[j].description@).len()
                &&& forall|j: int|
                    0 <= j < i && (#[trigger] images[j]).family@ == family ==> encode_utf8(d).len()
                        < encode_utf8(images[j].description@).len()
            },
    decreases images.len(),
{
    let members = of_family(images, family);
    let ds = image_descriptions(members);
    let w = choose|w: int|
        #![trigger ds[w]]
        {
            &&& 0 <= w < ds.len()
            &&& ds[w] == d
            &&& forall|j: int| 0 <= j < ds.len() ==> byte_len(d) <= byte_len(#[trigger] ds[j])
            &&& forall|j: int| 0 <= j < w ==> byte_len(d) < byte_len(#[trigger] ds[j])
        };
    reveal(Seq::filter);
    assert(images.len() > 0);
    let shorter = images.drop_last();
    let last = images.last();
    let fewer = of_family(shorter, family);
    let fewer_ds = image_descriptions(fewer);
    assert(images =~= shorter.push(last));
    lemma_of_family_push(shorter, last, family);
    assert forall|j: int| 0 <= j < shorter.len() && (#[trigger] images[j]).family@ == family implies exists|
        m: int,
    |
        0 <= m < fewer.len() && #[trigger] fewer_ds[m] == images[j].description@ by {
        assert(shorter[j] == images[j]);
        lemma_of_family_contains(shorter, family, images[j]);
        assert(shorter.contains(images[j]));
        let m = choose|m: int| 0 <= m < fewer.len() && fewer[m] == images[j];
        assert(fewer_ds[m] == images[j].description@);
    }
    if last.family@ == family && w == fewer.len() {
        let i = images.len() - 1;
        assert(members[w] == last);
        assert(ds[w] == last.description@);
        assert forall|j: int| 0 <= j < i && (#[trigger] images[j]).family@ == family implies encode_utf8(
            d,
        ).len() < encode_utf8(images[j].description@).len() by {
            let m = choose|m: int|
                0 <= m < fewer.len() && #[trigger] fewer_ds[m] == images[j].description@;
            assert(ds[m] == fewer_ds[m]);
        }
        assert(images[i] == last);
    } else {
        assert(fewer_ds[w] == ds[w]);
        assert forall|j: int| 0 <= j < fewer_ds.len() implies byte_len(d) <= byte_len(
            #[trigger] fewer_ds[j],
        ) by {
            assert(ds[j] == fewer_ds[j]);
        }
        assert forall|j: int| 0 <= j < w implies byte_len(d) < byte_len(#[trigger] fewer_ds[j]) by {
            assert(ds[j] == fewer_ds[j]);
        }
        assert(first_shortest(fewer_ds, d));
        lemma_description_over_all_images(shorter, family, d);
        let i = choose|i: int|
            #![trigger shorter[i]]
            {
                &&& 0 <= i < shorter.len()
                &&& shorter[i].family@ == family
                &&& shorter[i].description@ == d
                &&& forall|j: int|
                    0 <= j < shorter.len() && (#[trigger] shorter[j]).family@ == family
                        ==> encode_utf8(d).len() <= encode_utf8(shorter[j].description@).len()
                &&& forall|j: int|
                    0 <= j < i && (#[trigger] shorter[j]).family@ == family ==> encode_utf8(d).len()
                        < encode_utf8(shorter[j].description@).len()
            };
        assert(images[i] == shorter[i]);
        assert forall|j: int|
            0 <= j < images.len() && (#[trigger] images[j]).family@ == family implies encode_utf8(
            d,
        ).len() <= encode_utf8(images[j].description@).len() by {
            if j < shorter.len() {
                assert(images[j] == shorter[j]);
            } else {
                assert(members[fewer.len() as int] == last);
                assert(ds[fewer.len() as int] == last.description@);
            }
        }
        assert forall|j: int| 0 <= j < i && (#[trigger] images[j]).family@ == family implies encode_utf8(
            d,
        ).len() < encode_utf8(images[j].description@).len() by {
            assert(images[j] == shorter[j]);
        }
    }
}

/// What the rows of a summary are, as they stand in the list of summaries.
proof fn lemma_rows_of_summaries(images: Seq<Image>, summaries: Seq<ImageFamilySummary>, k: int)
    requires
        summarized(images, summary_rows(summaries)),
        0 <= k < summaries.len(),
    ensures
        summary_rows(summaries).len() == summaries.len(),
        summary_rows(summaries)[k].family == summaries[k].family@,
        summary_rows(summaries)[k].description == summaries[k].description@,
        summary_rows(summaries)[k].architectures == texts(summaries[k].architectures@),
        summary_rows(summaries)[k].regions == texts(summaries[k].regions@),
        row_families(summary_rows(summaries)).len() == summaries.len(),
        row_families(summary_rows(summaries))[k] == summaries[k].family@,
        row_of(of_family(images, summaries[k].family@), summary_rows(summaries)[k]),
{
    assert(summary_rows(summaries)[k] == summaries[k]@);
}

/// In a summary the families come in the order of their names, each once, and so do the
/// architectures and the regions of a family.
pub proof fn law_summary_is_in_order(images: Seq<Image>, summaries: Seq<ImageFamilySummary>, k: int)
    requires
        summarized(images, summary_rows(summaries)),
        0 <= k < summaries.len(),
    ensures
        forall|j: int|
            k < j < summaries.len() ==> text_less(
                summaries[k].family@,
                (#[trigger] summaries[j]).family@,
            ) && summaries[k].family@ != summaries[j].family@,
        forall|i: int, j: int|
            0 <= i < j < summaries[k].architectures@.len() ==> text_less(
                (#[trigger] summaries[k].architectures@[i])@,
                (#[trigger] summaries[k].architectures@[j])@,
            ),
        forall|i: int, j: int|
            0 <= i < j < summaries[k].regions@.len() ==> text_less(
                (#[trigger] summaries[k].regions@[i])@,
                (#[trigger] summaries[k].regions@[j])@,
            ),
{
    let names = row_families(summary_rows(summaries));
    lemma_rows_of_summaries(images, summaries, k);
    assert forall|j: int| k < j < summaries.len() implies text_less(
        summaries[k].family@,
        (#[trigger] summaries[j]).family@,
    ) && summaries[k].family@ != summaries[j].family@ by {
        lemma_rows_of_summaries(images, summaries, j);
        assert(text_less(names[k], names[j]));
        law_text_less_is_a_strict_total_order(names[k], names[j], names[j]);
    }
    let listed = texts(summaries[k].architectures@);
    assert forall|i: int, j: int|
        0 <= i < j < summaries[k].architectures@.len() implies text_less(
        (#[trigger] summaries[k].architectures@[i])@,
        (#[trigger] summaries[k].architectures@[j])@,
    ) by {
        assert(text_less(listed[i], listed[j]));
    }
    let places = texts(summaries[k].regions@);
    assert forall|i: int, j: int| 0 <= i < j < summaries[k].regions@.len() implies text_less(
        (#[trigger] summaries[k].regions@[i])@,
        (#[trigger] summaries[k].regions@[j])@,
    ) by {
        assert(text_less(places[i], places[j]));
    }
}

/// No image is left out of a summary: there is a row with its family, which has its architecture
/// and its region.
pub proof fn law_summary_leaves_no_image_out(
    images: Seq<Image>,
    summaries: Seq<ImageFamilySummary>,
    i: int,
)
    requires
        summarized(images, summary_rows(summaries)),
        0 <= i < images.len(),
    ensures
        exists|k: int, a: int, r: int|
            #![trigger summaries[k].architectures@[a], summaries[k].regions@[r]]
            {
                &&& 0 <= k < summaries.len()
                &&& summaries[k].family@ == images[i].family@
                &&& 0 <= a < summaries[k].architectures@.len()
                &&& summaries[k].architectures@[a]@ == images[i].architecture@
                &&& 0 <= r < summaries[k].regions@.len()
                &&& summaries[k].regions@[r]@ == images[i].region.name@
            },
{
    let rows = summary_rows(summaries);
    law_every_image_is_covered(images, rows, i);
    let k = choose|k: int|
        #![trigger rows[k]]
        {
            &&& 0 <= k < rows.len()
            &&& rows[k].family == images[i].family@
            &&& rows[k].architectures.contains(images[i].architecture@)
            &&& rows[k].regions.contains(images[i].region.name@)
            &&& byte_len(rows[k].description) <= byte_len(images[i].description@)
        };
    lemma_rows_of_summaries(images, summaries, k);
    let listed = texts(summaries[k].architectures@);
    let places = texts(summaries[k].regions@);
    let a = choose|a: int| 0 <= a < listed.len() && listed[a] == images[i].architecture@;
    let r = choose|r: int| 0 <= r < places.len() && places[r] == images[i].region.name@;
    assert(summaries[k].architectures@[a]@ == images[i].architecture@);
    assert(summaries[k].regions@[r]@ == images[i].region.name@);
}

/// No architecture in a row is made up: it is that of an image of the family.
pub proof fn law_summary_makes_no_architecture_up(
    images: Seq<Image>,
    summaries: Seq<ImageFamilySummary>,
    k: int,
    a: int,
)
    requires
        summarized(images, summary_rows(summaries)),
        0 <= k < summaries.len(),
        0 <= a < summaries[k].architectures@.len(),
    ensures
        exists|i: int|
            #![trigger images[i]]
            0 <= i < images.len() && images[i].family@ == summaries[k].family@ && images[i].architecture@
                == summaries[k].architectures@[a]@,
{
    lemma_rows_of_summaries(images, summaries, k);
    let family = summaries[k].family@;
    let listed = texts(summaries[k].architectures@);
    let all = image_architectures(of_family(images, family));
    assert(listed.to_set().contains(listed[a]));
    assert(all.to_set().contains(listed[a]));
    let m = choose|m: int| 0 <= m < all.len() && all[m] == listed[a];
    let i = lemma_member_is_an_image(images, family, m);
    assert(images[i].architecture@ == summaries[k].architectures@[a]@);
}

/// No region in a row is made up: it is that of an image of the family.
pub proof fn law_summary_makes_no_region_up(
    images: Seq<Image>,
    summaries: Seq<ImageFamilySummary>,
    k: int,
    r: int,
)
    requires
        summarized(images, summary_rows(summaries)),
        0 <= k < summaries.len(),
        0 <= r < summaries[k].regions@.len(),
    ensures
        exists|i: int|
            #![trigger images[i]]
            0 <= i < images.len() && images[i].family@ == summaries[k].family@ && images[i].region.name@
                == summaries[k].regions@[r]@,
{
    lemma_rows_of_summaries(images, summaries, k);
    let family = summaries[k].family@;
    let places = texts(summaries[k].regions@);
    let all = image_regions(of_family(images, family));
    assert(places.to_set().contains(places[r]));
    assert(all.to_set().contains(places[r]));
    let m = choose|m: int| 0 <= m < all.len() && all[m] == places[r];
    let i = lemma_member_is_an_image(images, family, m);
    assert(images[i].region.name@ == summaries[k].regions@[r]@);
}

proof fn lemma_member_is_an_image(images: Seq<Image>, family: Seq<char>, m: int) -> (i: int)
    requires
        0 <= m < of_family(images, family).len(),
    ensures
        0 <= i < images.len(),
        images[i] == of_family(images, family)[m],
        images[i].family@ == family,
{
    let member = of_family(images, family)[m];
    lemma_of_family_contains(images, family, member);
    assert(of_family(images, family).contains(member));
    choose|i: int| 0 <= i < images.len() && images[i] == member
}

/// The description in a row is that of an image of the family. No image of the family has a shorter
/// one, counted in bytes of UTF-8, and those that come earlier in the list have longer ones.
pub proof fn law_summary_has_the_first_shortest_description(
    images: Seq<Image>,
    summaries: Seq<ImageFamilySummary>,
    k: int,
)
    requires
        summarized(images, summary_rows(summaries)),
        0 <= k < summaries.len(),
    ensures
        exists|i: int|
            #![trigger images[i]]
            {
                &&& 0 <= i < images.len()
                &&& images[i].family@ == summaries[k].family@
                &&& images[i].description@ == summaries[k].description@
                &&& forall|j: int|
                    0 <= j < images.len() && (#[trigger] images[j]).family@ == summaries[k].family@
                        ==> encode_utf8(summaries[k].description@).len() <= encode_utf8(
                        images[j].description@,
                    ).len()
                &&& forall|j: int|
                    0 <= j < i && (#[trigger] images[j]).family@ == summaries[k].family@
                        ==> encode_utf8(summaries[k].description@).len() < encode_utf8(
                        images[j].description@,
                    ).len()
            },
{
    lemma_rows_of_summaries(images, summaries, k);
    lemma_description_over_all_images(images, summaries[k].family@, summaries[k].description@);
}

/// An optional argument is seen as it is given, blank or not.
pub proof fn law_argument_is_seen_as_given(arg: Option<&str>)
    ensures
        arg is None ==> opt_text(arg) is None,
        arg is Some ==> opt_text(arg) == Some(arg->0@),
{
}

} // verus!
