//! The JSON texts that events carry.

use crate::json::{json_bool, json_object, json_text, Fields};
use crate::text::decimal;
use crate::web::models::{SafeImageAsset, SafeImageAssetModel};
use vstd::prelude::*;

verus! {

/// The JSON text of a picture that a page shows.
pub open spec fn asset_json(asset: SafeImageAssetModel) -> Seq<char> {
    json_object(
        seq![
            ("alt"@, json_text(asset.alt)),
            ("height"@, decimal(asset.height as nat)),
            ("hide_caption"@, json_bool(asset.hide_caption)),
            ("id"@, json_text(asset.id)),
            ("mime"@, json_text(asset.mime)),
            ("source"@, json_text(asset.source)),
            ("url"@, json_text(asset.url)),
            ("width"@, decimal(asset.width as nat)),
        ],
    )
}

pub(crate) fn encode_asset(asset: &SafeImageAsset) -> (json: String)
    ensures
        json@ == asset_json(asset.deep_view()),
{
    let fields = Fields::new().text("alt", asset.alt.as_str()).number(
        "height",
        asset.height as u64,
    ).truth("hide_caption", asset.hide_caption).text("id", asset.id.as_str()).text(
        "mime",
        asset.mime.as_str(),
    ).text("source", asset.source.as_str()).text("url", asset.url.as_str()).number(
        "width",
        asset.width as u64,
    );
    let json = fields.object();
    proof {
        let model = asset.deep_view();
        assert(fields@ =~= seq![
            ("alt"@, json_text(model.alt)),
            ("height"@, decimal(model.height as nat)),
            ("hide_caption"@, json_bool(model.hide_caption)),
            ("id"@, json_text(model.id)),
            ("mime"@, json_text(model.mime)),
            ("source"@, json_text(model.source)),
            ("url"@, json_text(model.url)),
            ("width"@, decimal(model.width as nat)),
        ]);
    }
    json
}

} // verus!
