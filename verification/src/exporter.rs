//! Export planning and preview encoding. `export` turns pack metadata and a
//! list of export items into a complete, verified plan: the sanitized
//! directory names, every output filename, every manifest record in
//! processing order, and the serialized manifest document. Performing the
//! disk writes from that plan is the calling shell's job.

use vstd::prelude::*;
use vstd::string::{StrSliceExecFns, StringExecFns};
use crate::image_data::ImageData;
use crate::image_size::{ImageSize, sizes_of};
use crate::manifest::{Painting, RecordV, json_of, manifest_to_json, pack_view, views_of};
use crate::pack_list::PackList;
use crate::picture::{SourceImage, png_bytes, shrink_to_width};
use crate::text::{dec_digits, push_char, push_decimal, sanitize_id, sanitize_spaces, sanitized_id, underscored};

verus! {

/// Everything needed to export one image: its source path and its metadata.
pub struct ExportItem {
    pub source_path: String,
    pub data: ImageData,
}

/// Failure of the export call itself.
#[derive(Debug, Clone, Copy, PartialEq, Eq, Structural)]
pub enum ExportError {
    /// A required metadata field (identifier, filename stem, display name or
    /// attribution) is absent on an item: a caller bug, fatal to the whole
    /// export.
    ContractViolation,
}

/// The width cap applied to exported crops before writing.
pub const EXPORT_WIDTH_CAP: u32 = 1024;

/// An item carries all four required metadata fields.
pub open spec fn item_ok(it: ExportItem) -> bool {
    &&& it.data.id is Some
    &&& it.data.filename is Some
    &&& it.data.name is Some
    &&& it.data.artist is Some
}

/// The manifest record written for `it` at the size multiple `wh`: sanitized
/// identifier and filename stem, each suffixed with `_<w>x<h>`, the filename
/// with the image extension, and the nominal multiple as recorded size.
pub open spec fn record_of(it: ExportItem, wh: (u32, u32)) -> RecordV {
    RecordV {
        id: underscored((it.data.id->0)@) + seq!['_'] + dec_digits(wh.0 as int) + seq!['x']
            + dec_digits(wh.1 as int),
        filename: underscored((it.data.filename->0)@) + seq!['_'] + dec_digits(wh.0 as int)
            + seq!['x'] + dec_digits(wh.1 as int) + ".png"@,
        name: (it.data.name->0)@,
        artist: (it.data.artist->0)@,
        width: wh.0,
        height: wh.1,
    }
}

/// The first `j` records of one item, one per size multiple in class order.
pub open spec fn records_of_item_prefix(it: ExportItem, j: int) -> Seq<RecordV> {
    Seq::new(j as nat, |q: int| record_of(it, sizes_of(it.data.image_size)[q]))
}

/// All records of one item.
pub open spec fn records_of_item(it: ExportItem) -> Seq<RecordV> {
    records_of_item_prefix(it, sizes_of(it.data.image_size).len() as int)
}

/// All records of an export, item by item in input order, each item's
/// multiples in class order.
pub open spec fn plan_records(items: Seq<ExportItem>) -> Seq<RecordV>
    decreases items.len(),
{
    if items.len() == 0 {
        Seq::empty()
    } else {
        plan_records(items.drop_last()) + records_of_item(items.last())
    }
}

/// The number of size multiples over all items.
pub open spec fn total_multiples(items: Seq<ExportItem>) -> nat
    decreases items.len(),
{
    if items.len() == 0 {
        0
    } else {
        total_multiples(items.drop_last()) + sizes_of(items.last().data.image_size).len()
    }
}

/// Output-count law: an export of these items produces exactly one manifest
/// record per (item, size multiple) pair, so the record list's length is the
/// sum of the items' multiple counts.
pub proof fn lemma_plan_records_len(items: Seq<ExportItem>)
    ensures
        plan_records(items).len() == total_multiples(items),
    decreases items.len(),
{
    if items.len() > 0 {
        lemma_plan_records_len(items.drop_last());
    }
}

/// The file writes planned for one item: where the pixels come from, how to
/// crop them, and the output filename for every size multiple.
pub struct ExportJob {
    pub source_path: String,
    pub image_size: ImageSize,
    pub filenames: Vec<String>,
}

/// A job covers one item: same source, same class, and one output filename
/// per size multiple, named exactly as the item's manifest records say.
pub open spec fn job_matches(job: ExportJob, it: ExportItem) -> bool {
    &&& job.source_path == it.source_path
    &&& job.image_size == it.data.image_size
    &&& job.filenames@.len() == sizes_of(it.data.image_size).len()
    &&& forall|j: int|
        0 <= j < job.filenames@.len() ==> (#[trigger] job.filenames@[j])@ == record_of(
            it,
            sizes_of(it.data.image_size)[j],
        ).filename
}

/// The complete plan of one export call.
pub struct ExportPlan {
    /// `<export root>/<sanitized pack name>`.
    pub pack_dir: String,
    /// `<pack_dir>/images`, where every planned file goes.
    pub images_dir: String,
    /// One job per item, in input order.
    pub jobs: Vec<ExportJob>,
    /// The pack with every manifest record appended, in processing order.
    pub pack: PackList<Painting>,
    /// The serialized manifest document.
    pub manifest_json: String,
}

/// The name of the manifest file inside the pack directory.
pub fn manifest_filename() -> (r: &'static str)
    ensures
        r@ == "custompaintings.json"@,
{
    "custompaintings.json"
}

/// The name of the bundle icon file inside the pack directory.
pub fn icon_filename() -> (r: &'static str)
    ensures
        r@ == "icon.png"@,
{
    "icon.png"
}

/// Plan a whole export: sanitize the pack name (spaces to underscores) and
/// the pack identifier (lowercase, underscores, restricted alphabet), build
/// one manifest record and one output filename per (item, size multiple)
/// pair in input order, and serialize the manifest.
///
/// Fails with `ContractViolation` if and only if some item is missing a
/// required metadata field; no partial plan is returned.
pub fn export(
    pack_name: String,
    version: String,
    id: String,
    description: String,
    items_to_export: Vec<ExportItem>,
    export_path: &str,
) -> (r: Result<ExportPlan, ExportError>)
    ensures
        r is Ok <==> (forall|i: int|
            0 <= i < items_to_export@.len() ==> item_ok(#[trigger] items_to_export@[i])),
        r matches Ok(plan) ==> {
            &&& plan.pack_dir@ == export_path@ + "/"@ + underscored(pack_name@)
            &&& plan.images_dir@ == export_path@ + "/"@ + underscored(pack_name@) + "/images"@
            &&& plan.pack.pack_name@ == pack_name@
            &&& plan.pack.version@ == version@
            &&& plan.pack.id@ == sanitized_id(id@)
            &&& plan.pack.description@ == description@
            &&& plan.pack.schema@ == "http://json-schema.org/draft-07/schema#"@
            &&& views_of(plan.pack.paintings@) == plan_records(items_to_export@)
            &&& plan.manifest_json@ == json_of(pack_view(&plan.pack))
            &&& plan.jobs@.len() == items_to_export@.len()
            &&& forall|i: int|
                0 <= i < plan.jobs@.len() ==> job_matches(
                    #[trigger] plan.jobs@[i],
                    items_to_export@[i],
                )
        },
{
    let ghost pack_name_v = pack_name@;
    let ghost version_v = version@;
    let ghost id_v = id@;
    let ghost description_v = description@;
    let ghost items_v = items_to_export@;

    let sanitized_pack_name = sanitize_spaces(pack_name.as_str());
    let mut pack_dir = String::from_str(export_path);
    push_char(&mut pack_dir, '/');
    pack_dir.append(sanitized_pack_name.as_str());
    proof {
        reveal_strlit("/");
        assert(pack_dir@ =~= export_path@ + "/"@ + underscored(pack_name_v));
    }
    let mut images_dir = pack_dir.clone();
    images_dir.append("/images");
    proof {
        assert(images_dir@ =~= export_path@ + "/"@ + underscored(pack_name_v) + "/images"@);
    }

    let sanitized_pack_id = sanitize_id(id.as_str());
    let mut painting_list: PackList<Painting> = PackList::new(
        pack_name,
        version,
        sanitized_pack_id,
        description,
    );
    let mut jobs: Vec<ExportJob> = Vec::new();

    let n = items_to_export.len();
    let mut i: usize = 0;
    while i < n
        invariant
            n == items_v.len(),
            items_to_export@ == items_v,
            0 <= i <= n,
            forall|k: int| 0 <= k < i ==> item_ok(#[trigger] items_v[k]),
            painting_list.pack_name@ == pack_name_v,
            painting_list.version@ == version_v,
            painting_list.id@ == sanitized_id(id_v),
            painting_list.description@ == description_v,
            painting_list.schema@ == "http://json-schema.org/draft-07/schema#"@,
            views_of(painting_list.paintings@) == plan_records(items_v.take(i as int)),
            jobs@.len() == i,
            forall|k: int| 0 <= k < i ==> job_matches(#[trigger] jobs@[k], items_v[k]),
        decreases n - i,
    {
        let item = &items_to_export[i];
        let id_s = match &item.data.id {
            Some(s) => s,
            None => { return Err(ExportError::ContractViolation) },
        };
        let file_s = match &item.data.filename {
            Some(s) => s,
            None => { return Err(ExportError::ContractViolation) },
        };
        let name_s = match &item.data.name {
            Some(s) => s,
            None => { return Err(ExportError::ContractViolation) },
        };
        let artist_s = match &item.data.artist {
            Some(s) => s,
            None => { return Err(ExportError::ContractViolation) },
        };

        let sanitized_id_s = sanitize_spaces(id_s.as_str());
        let sanitized_filename = sanitize_spaces(file_s.as_str());
        let sizes = item.data.get_sizes();

        let mut filenames: Vec<String> = Vec::new();
        let m = sizes.len();
        let mut j: usize = 0;
        while j < m
            invariant
                m == sizes_of(items_v[i as int].data.image_size).len(),
                sizes@ == sizes_of(items_v[i as int].data.image_size),
                0 <= j <= m,
                i < n == items_v.len(),
                items_to_export@ == items_v,
                item == &items_v[i as int],
                item_ok(items_v[i as int]),
                sanitized_id_s@ == underscored((items_v[i as int].data.id->0)@),
                sanitized_filename@ == underscored((items_v[i as int].data.filename->0)@),
                name_s@ == (items_v[i as int].data.name->0)@,
                artist_s@ == (items_v[i as int].data.artist->0)@,
                painting_list.pack_name@ == pack_name_v,
                painting_list.version@ == version_v,
                painting_list.id@ == sanitized_id(id_v),
                painting_list.description@ == description_v,
                painting_list.schema@ == "http://json-schema.org/draft-07/schema#"@,
                views_of(painting_list.paintings@) == plan_records(items_v.take(i as int))
                    + records_of_item_prefix(items_v[i as int], j as int),
                filenames@.len() == j,
                forall|q: int|
                    0 <= q < j ==> (#[trigger] filenames@[q])@ == record_of(
                        items_v[i as int],
                        sizes_of(items_v[i as int].data.image_size)[q],
                    ).filename,
            decreases m - j,
        {
            let (width, height) = sizes[j];

            let mut rec_id = sanitized_id_s.clone();
            push_char(&mut rec_id, '_');
            push_decimal(&mut rec_id, width);
            push_char(&mut rec_id, 'x');
            push_decimal(&mut rec_id, height);

            let mut base_filename = sanitized_filename.clone();
            push_char(&mut base_filename, '_');
            push_decimal(&mut base_filename, width);
            push_char(&mut base_filename, 'x');
            push_decimal(&mut base_filename, height);
            base_filename.append(".png");

            let painting_meta = Painting {
                id: rec_id,
                filename: base_filename.clone(),
                name: name_s.clone(),
                artist: artist_s.clone(),
                width,
                height,
            };
            proof {
                assert(painting_meta@.id =~= record_of(items_v[i as int], (width, height)).id);
                assert(painting_meta@.filename =~= record_of(
                    items_v[i as int],
                    (width, height),
                ).filename);
                assert(painting_meta@ =~~= record_of(items_v[i as int], (width, height)));
            }
            let ghost before = painting_list.paintings@;
            painting_list.add_painting(painting_meta);
            filenames.push(base_filename);
            proof {
                let it = items_v[i as int];
                assert(painting_list.paintings@ == before.push(painting_meta));
                assert(views_of(before.push(painting_meta)) =~~= views_of(before).push(
                    painting_meta@,
                ));
                assert(records_of_item_prefix(it, j + 1 as int) =~~= records_of_item_prefix(
                    it,
                    j as int,
                ).push(record_of(it, sizes_of(it.data.image_size)[j as int])));
                assert(views_of(painting_list.paintings@) =~~= plan_records(items_v.take(i as int))
                    + records_of_item_prefix(it, j + 1 as int));
            }
            j = j + 1;
        }

        let job = ExportJob {
            source_path: item.source_path.clone(),
            image_size: item.data.image_size,
            filenames,
        };
        jobs.push(job);
        proof {
            let it = items_v[i as int];
            assert(records_of_item_prefix(it, m as int) == records_of_item(it));
            assert(items_v.take(i + 1 as int).drop_last() =~= items_v.take(i as int));
            assert(items_v.take(i + 1 as int).last() == it);
            assert(views_of(painting_list.paintings@) =~~= plan_records(items_v.take(i + 1 as int)));
        }
        i = i + 1;
    }

    proof {
        assert(items_v.take(n as int) =~= items_v);
    }
    let manifest_json = manifest_to_json(&painting_list);
    Ok(
        ExportPlan {
            pack_dir,
            images_dir,
            jobs,
            pack: painting_list,
            manifest_json,
        },
    )
}

/// Cap an export crop's width at `EXPORT_WIDTH_CAP`: an over-wide crop is
/// scaled down proportionally so its width equals the cap, the height
/// following the source aspect to within one pixel (stated as a
/// cross-multiplied bound); narrower images pass through untouched.
pub fn cap_export_width(painting: SourceImage) -> (r: SourceImage)
    ensures
        r.spec_width() <= EXPORT_WIDTH_CAP,
        painting.spec_width() <= EXPORT_WIDTH_CAP ==> r == painting,
        painting.spec_width() > EXPORT_WIDTH_CAP ==> {
            &&& r.spec_width() == EXPORT_WIDTH_CAP
            &&& 1 <= r.spec_height()
            &&& (r.spec_height() as int) * (painting.spec_width() as int) <= (
            EXPORT_WIDTH_CAP as int) * (painting.spec_height() as int) + painting.spec_width()
            &&& (EXPORT_WIDTH_CAP as int) * (painting.spec_height() as int) <= (
            r.spec_height() as int) * (painting.spec_width() as int) + painting.spec_width()
        },
{
    if painting.width() > EXPORT_WIDTH_CAP {
        shrink_to_width(&painting, EXPORT_WIDTH_CAP)
    } else {
        painting
    }
}

pub uninterp spec fn base64_of(b: Seq<u8>) -> Seq<char>;

/// Relies on base64's STANDARD engine encode: the encoding depends on the
/// input bytes alone.
#[verifier::external_body]
fn base64_encode(b: &Vec<u8>) -> (r: String)
    ensures
        r@ == base64_of(b@),
{
    base64::Engine::encode(&base64::engine::general_purpose::STANDARD, b)
}

/// A PNG data URI: the fixed prefix followed by the base64 of the PNG bytes.
pub open spec fn data_uri_of(b: Seq<u8>) -> Seq<char> {
    "data:image/png;base64,"@ + base64_of(b)
}

/// Format PNG bytes as an inline data URI.
fn data_uri(bytes: &Vec<u8>) -> (r: String)
    ensures
        r@ == data_uri_of(bytes@),
{
    let mut out = String::from_str("data:image/png;base64,");
    let tail = base64_encode(bytes);
    out.append(tail.as_str());
    proof {
        assert(out@ =~= data_uri_of(bytes@));
    }
    out
}

/// A string that is some byte sequence rendered as a PNG data URI.
pub open spec fn is_data_uri(s: Seq<char>) -> bool {
    exists|b: Seq<u8>| s == #[trigger] data_uri_of(b)
}

/// Encode each preview buffer as an inline PNG data URI, one string per
/// buffer in order. Succeeds if and only if every buffer has positive
/// dimensions: the PNG encoder refuses exactly the zero-sized crops, and on
/// the first refusal no partial list is returned.
pub fn generate_base64_previews(image_list: &Vec<SourceImage>) -> (r: Option<Vec<String>>)
    ensures
        r is Some <==> (forall|i: int|
            0 <= i < image_list@.len() ==> 1 <= (#[trigger] image_list@[i]).spec_width()
                && 1 <= image_list@[i].spec_height()),
        r matches Some(v) ==> v@.len() == image_list@.len() && (forall|i: int|
            #![trigger v@[i]]
            0 <= i < v@.len() ==> is_data_uri(v@[i]@)),
{
    let mut base64_images: Vec<String> = Vec::new();
    let n = image_list.len();
    let mut i: usize = 0;
    while i < n
        invariant
            n == image_list@.len(),
            0 <= i <= n,
            base64_images@.len() == i,
            forall|k: int|
                0 <= k < i ==> 1 <= (#[trigger] image_list@[k]).spec_width()
                    && 1 <= image_list@[k].spec_height(),
            forall|k: int|
                #![trigger base64_images@[k]]
                0 <= k < i ==> is_data_uri(base64_images@[k]@),
        decreases n - i,
    {
        match png_bytes(&image_list[i]) {
            None => { return None },
            Some(image_buffer) => {
                let base64_string = data_uri(&image_buffer);
                base64_images.push(base64_string);
                proof {
                    assert(base64_images@[i as int]@ == data_uri_of(image_buffer@));
                    assert(is_data_uri(base64_images@[i as int]@));
                }
            },
        }
        i = i + 1;
    }
    Some(base64_images)
}

} // verus!
