//! Search records and their images.
//!
//! A search answer is an ordered list of candidate records, each carrying
//! several image variants (url, format, scale, size).  A record becomes a
//! usable emote by selecting the variant in the required binary format at the
//! fixed target scale; a record with no such variant is dropped from the
//! batch, not treated as a fatal error.

use vstd::prelude::*;
use vstd::string::StringExecFns;

use crate::errors::VariantError;

verus! {

/// The scale at which an emote's image is fetched and rendered.
pub const TARGET_SCALE: usize = 4;

/// The binary format a usable image variant must have.
pub open spec fn required_mime() -> Seq<char> {
    "image/webp"@
}

/// Mathematical model of one image variant.
pub ghost struct ImageModel {
    pub url: Seq<char>,
    pub mime: Seq<char>,
    pub size: int,
    pub scale: int,
    pub width: int,
    pub frame_count: int,
}

/// Mathematical model of one emote record.
pub ghost struct EmoteModel {
    pub id: Seq<char>,
    pub name: Seq<char>,
    pub url: Seq<char>,
}

/// Mathematical model of one search candidate.
pub ghost struct ItemModel {
    pub id: Seq<char>,
    pub name: Seq<char>,
    pub images: Seq<ImageModel>,
}

/// One image variant of a search candidate.
#[derive(Debug)]
pub struct Image {
    pub url: String,
    pub mime: String,
    pub size: usize,
    pub scale: usize,
    pub width: usize,
    pub frame_count: usize,
}

impl View for Image {
    type V = ImageModel;

    open spec fn view(&self) -> ImageModel {
        ImageModel {
            url: self.url@,
            mime: self.mime@,
            size: self.size as int,
            scale: self.scale as int,
            width: self.width as int,
            frame_count: self.frame_count as int,
        }
    }
}

/// One candidate returned by a search, with all its image variants.
#[derive(Debug)]
pub struct Item {
    pub id: String,
    pub name: String,
    pub images: Vec<Image>,
}

impl View for Item {
    type V = ItemModel;

    open spec fn view(&self) -> ItemModel {
        ItemModel {
            id: self.id@,
            name: self.name@,
            images: self.images@.map_values(|im: Image| im@),
        }
    }
}

/// One chosen emote: the unit returned by search and stored in recency.
#[derive(Debug)]
pub struct WebmEmote {
    pub id: String,
    pub name: String,
    pub url: String,
}

impl View for WebmEmote {
    type V = EmoteModel;

    open spec fn view(&self) -> EmoteModel {
        EmoteModel { id: self.id@, name: self.name@, url: self.url@ }
    }
}

impl Clone for WebmEmote {
    fn clone(&self) -> (r: Self)
        ensures
            r == *self,
    {
        WebmEmote { id: self.id.clone(), name: self.name.clone(), url: self.url.clone() }
    }
}

impl PartialEq for WebmEmote {
    fn eq(&self, other: &Self) -> (r: bool) {
        self.id == other.id && self.name == other.name && self.url == other.url
    }
}

impl vstd::std_specs::cmp::PartialEqSpecImpl for WebmEmote {
    open spec fn obeys_eq_spec() -> bool {
        true
    }

    open spec fn eq_spec(&self, other: &Self) -> bool {
        self@ == other@
    }
}

/// The models of a sequence of emotes.
pub open spec fn models_of(es: Seq<WebmEmote>) -> Seq<EmoteModel> {
    es.map_values(|e: WebmEmote| e@)
}

/// Whether a variant is in the required format at the target scale.
pub open spec fn is_target_variant(v: ImageModel) -> bool {
    v.scale == TARGET_SCALE as int && v.mime == required_mime()
}

/// The first variant in the required format at the target scale, if any.
pub open spec fn pick_variant(images: Seq<ImageModel>) -> Option<ImageModel>
    decreases images.len(),
{
    if images.len() == 0 {
        None
    } else if is_target_variant(images[0]) {
        Some(images[0])
    } else {
        pick_variant(images.drop_first())
    }
}

/// The emote a search candidate resolves to: its identity together with the
/// URL of its target-scale variant; an error when no variant matches.
pub open spec fn emote_of_item(it: ItemModel) -> Result<EmoteModel, VariantError> {
    match pick_variant(it.images) {
        Some(v) => Ok(EmoteModel { id: it.id, name: it.name, url: v.url }),
        None => Err(VariantError::NoMatchingVariant),
    }
}

/// The emotes of a whole batch, in order, with unresolvable records dropped.
pub open spec fn emotes_of_items(items: Seq<ItemModel>) -> Seq<EmoteModel>
    decreases items.len(),
{
    if items.len() == 0 {
        Seq::empty()
    } else {
        emotes_of_items(items.drop_last()) + (match emote_of_item(items.last()) {
            Ok(m) => seq![m],
            Err(_) => Seq::empty(),
        })
    }
}

fn mime_matches(mime: &String) -> (r: bool)
    ensures
        r == (mime@ == required_mime()),
{
    let required = String::from_str("image/webp");
    mime.eq(&required)
}

/// Resolve one search candidate to an emote, selecting its first variant in
/// the required format at the target scale.
pub fn emote_from_item(item: &Item) -> (r: Result<WebmEmote, VariantError>)
    ensures
        emote_of_item(item@) matches Ok(m) ==> (r matches Ok(e) && e@ == m),
        emote_of_item(item@) matches Err(er) ==> r == Err::<WebmEmote, VariantError>(er),
{
    let n = item.images.len();
    let mut i: usize = 0;
    let mut found: Option<usize> = None;
    proof {
        assert(item@.images.skip(0) =~= item@.images);
    }
    loop
        invariant_except_break
            found is None,
        invariant
            i <= n,
            n == item.images@.len(),
            pick_variant(item@.images) == pick_variant(item@.images.skip(i as int)),
        ensures
            match found {
                Some(j) => j < n && pick_variant(item@.images) == Some(item@.images[j as int]),
                None => pick_variant(item@.images) is None,
            },
        decreases n - i,
    {
        if i >= n {
            assert(item@.images.skip(i as int) =~= Seq::empty());
            break;
        }
        let im = &item.images[i];
        proof {
            assert(item@.images.skip(i as int)[0] == item@.images[i as int]);
            assert(item@.images.skip(i as int).drop_first() =~= item@.images.skip(i as int + 1));
        }
        if im.scale == TARGET_SCALE && mime_matches(&im.mime) {
            found = Some(i);
            break;
        }
        i = i + 1;
    }
    match found {
        Some(j) => Ok(
            WebmEmote {
                id: item.id.clone(),
                name: item.name.clone(),
                url: item.images[j].url.clone(),
            },
        ),
        None => Err(VariantError::NoMatchingVariant),
    }
}

/// Resolve a whole batch of candidates, in order, dropping records with no
/// matching variant.
pub fn emotes_from_items(items: &Vec<Item>) -> (r: Vec<WebmEmote>)
    ensures
        models_of(r@) == emotes_of_items(items@.map_values(|it: Item| it@)),
{
    let ghost item_models = items@.map_values(|it: Item| it@);
    let mut out: Vec<WebmEmote> = Vec::new();
    let mut i: usize = 0;
    proof {
        assert(models_of(out@) =~= emotes_of_items(item_models.subrange(0, 0)));
    }
    while i < items.len()
        invariant
            i <= items@.len(),
            item_models == items@.map_values(|it: Item| it@),
            models_of(out@) == emotes_of_items(item_models.subrange(0, i as int)),
        decreases items@.len() - i,
    {
        let ghost prefix = item_models.subrange(0, i as int + 1);
        proof {
            assert(prefix.drop_last() =~= item_models.subrange(0, i as int));
            assert(prefix.last() == item_models[i as int]);
        }
        match emote_from_item(&items[i]) {
            Ok(e) => {
                out.push(e);
                proof {
                    assert(models_of(out@) =~= emotes_of_items(prefix));
                }
            },
            Err(_) => {
                proof {
                    assert(models_of(out@) =~= emotes_of_items(prefix));
                }
            },
        }
        i = i + 1;
    }
    proof {
        assert(item_models.subrange(0, item_models.len() as int) =~= item_models);
    }
    out
}

} // verus!
