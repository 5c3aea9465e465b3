//! The drawing of the tiles of a sequence of snapshots, and the report of their
//! invalidations.
//!
//! A tile is explained against the tile under the same coordinate in the
//! snapshot before. A tile that the snapshot before does not have appears for
//! the first time: it is drawn in its fill, with no tooltip title and no entry
//! in the report.

use std::collections::HashMap;
use vstd::prelude::*;
use vstd::string::*;
use crate::classify::{explanation, fill_style, fill_style_string, push_explanation};
use crate::model::{Cause, Rgb, SvgRect, Tile, TileOffset};
use crate::text::{
    decimal, lemma_concat_assoc, lemma_concat_empty, push_decimal, push_signed, signed_decimal,
};
use crate::tiles::{has_key, Slice, TileCacheInstance};

verus! {

/// The tooltip title of a tile: its slice, its coordinate and the dump of its
/// cause. Nothing where the tile has no cause or appears for the first time.
pub open spec fn tile_title(
    slice: usize,
    key: TileOffset,
    cause: Option<Cause>,
    has_prev: bool,
) -> Seq<char> {
    match cause {
        Some(cause) => if has_prev {
            "<title>slice "@ + decimal(slice as nat) + " tile ("@ + signed_decimal(key.x as int)
                + ","@ + signed_decimal(key.y as int) + ") - "@ + cause.dump@ + "</title>"@
        } else {
            Seq::empty()
        },
        None => Seq::empty(),
    }
}

/// The entry of a tile in the invalidation report. Nothing where the tile has
/// no cause or appears for the first time.
pub open spec fn report_entry(
    names: Map<u64, String>,
    slice: usize,
    key: TileOffset,
    cause: Option<Cause>,
    has_prev: bool,
) -> Seq<char> {
    match cause {
        Some(cause) => if has_prev {
            "<div class=\"subheader\">slice "@ + decimal(slice as nat) + " key ("@
                + signed_decimal(key.x as int) + ","@ + signed_decimal(key.y as int)
                + ")</div><div class=\"data\">"@ + explanation(names, cause) + "</div>\n"@
        } else {
            Seq::empty()
        },
        None => Seq::empty(),
    }
}

/// The opening of a rectangle element, up to its style.
pub open spec fn rect_opening(rect: SvgRect) -> Seq<char> {
    "<rect x=\""@ + rect.x@ + "\" y=\""@ + rect.y@ + "\" width=\""@ + rect.width@
        + "\" height=\""@ + rect.height@ + "\" "@
}

/// The rectangle that shows a tile in its fill.
pub open spec fn filled_rect(rect: SvgRect, fill: Seq<char>) -> Seq<char> {
    rect_opening(rect) + "style=\""@ + fill + "stroke:none;"@ + "\" ></rect>"@
}

/// The nearly invisible rectangle that carries the tooltip of a tile.
pub open spec fn tooltip_rect(rect: SvgRect, tile_stroke: Seq<char>, title: Seq<char>) -> Seq<
    char,
> {
    rect_opening(rect) + "style=\"fill-opacity:0.001;"@ + tile_stroke + "\" >"@ + title
        + "</rect>"@
}

/// The drawing of one tile: a comment with its coordinate, its filled
/// rectangle and its tooltip rectangle.
pub open spec fn tile_svg(
    slice: usize,
    fallback_background: Option<Rgb>,
    key: TileOffset,
    tile: Tile,
    has_prev: bool,
    tile_stroke: Seq<char>,
) -> Seq<char> {
    "\n<!-- tile key "@ + signed_decimal(key.x as int) + ","@ + signed_decimal(key.y as int)
        + " ; -->\n"@ + filled_rect(
        tile.rect,
        fill_style(tile.invalidation_reason, tile.background_color, fallback_background),
    ) + tooltip_rect(
        tile.rect,
        tile_stroke,
        tile_title(slice, key, tile.invalidation_reason, has_prev),
    )
}

/// Whether the tiles of the snapshot before, if there is one, hold a tile
/// under `key`.
pub open spec fn has_tile(prev: Option<Seq<(TileOffset, Tile)>>, key: TileOffset) -> bool {
    match prev {
        Some(entries) => has_key(entries, key),
        None => false,
    }
}

/// The drawings of the tiles of a tile cache, in map order, each against the
/// tiles of the snapshot before.
pub open spec fn tiles_svg(
    slice: usize,
    fallback_background: Option<Rgb>,
    entries: Seq<(TileOffset, Tile)>,
    prev: Option<Seq<(TileOffset, Tile)>>,
    tile_stroke: Seq<char>,
) -> Seq<char>
    decreases entries.len(),
{
    if entries.len() == 0 {
        Seq::empty()
    } else {
        tiles_svg(slice, fallback_background, entries.drop_last(), prev, tile_stroke) + tile_svg(
            slice,
            fallback_background,
            entries.last().0,
            entries.last().1,
            has_tile(prev, entries.last().0),
            tile_stroke,
        )
    }
}

/// The report entries of the tiles of a tile cache, in map order, each against
/// the tiles of the snapshot before.
pub open spec fn tiles_report(
    names: Map<u64, String>,
    slice: usize,
    entries: Seq<(TileOffset, Tile)>,
    prev: Option<Seq<(TileOffset, Tile)>>,
) -> Seq<char>
    decreases entries.len(),
{
    if entries.len() == 0 {
        Seq::empty()
    } else {
        tiles_report(names, slice, entries.drop_last(), prev) + report_entry(
            names,
            slice,
            entries.last().0,
            entries.last().1.invalidation_reason,
            has_tile(prev, entries.last().0),
        )
    }
}

/// The stroke of every tile.
pub open spec fn tile_stroke() -> Seq<char> {
    "stroke:none;"@
}

/// The group that draws one snapshot against the tiles of the one before.
pub open spec fn slice_svg(cache: TileCacheInstance, prev: Option<Seq<(TileOffset, Tile)>>) -> Seq<
    char,
> {
    "\n<g id=\"tile_slice"@ + decimal(cache.slice as nat) + "_everything\">"@
        + "\n<!-- tile_cache slice "@ + decimal(cache.slice as nat) + " -->\n"@ + tiles_svg(
        cache.slice,
        cache.background_color,
        cache.tiles@,
        prev,
        tile_stroke(),
    ) + "\n</g>"@
}

/// The part of the report on one snapshot against the tiles of the one before.
pub open spec fn slice_report(
    names: Map<u64, String>,
    cache: TileCacheInstance,
    prev: Option<Seq<(TileOffset, Tile)>>,
) -> Seq<char> {
    "<div id=\"invalidation_slice"@ + decimal(cache.slice as nat) + "\">\n"@ + tiles_report(
        names,
        cache.slice,
        cache.tiles@,
        prev,
    ) + "</div>\n"@
}

/// The position of the first snapshot at or behind `from` that has the index
/// `slice`, if there is one.
pub open spec fn first_match(slices: Seq<Slice>, slice: usize, from: int) -> Option<int>
    decreases slices.len() - from,
{
    if from < 0 || from >= slices.len() {
        None
    } else if slices[from].tile_cache.slice == slice {
        Some(from)
    } else {
        first_match(slices, slice, from + 1)
    }
}

/// The tiles of the snapshot before the one with the index `slice`: those of
/// the first of the earlier snapshots that has this index.
pub open spec fn previous_tiles(prev_slices: Option<Seq<Slice>>, slice: usize) -> Option<
    Seq<(TileOffset, Tile)>,
> {
    match prev_slices {
        Some(slices) => match first_match(slices, slice, 0) {
            Some(i) => Some(slices[i].tile_cache.tiles@),
            None => None,
        },
        None => None,
    }
}

/// The groups of a sequence of snapshots, in its order.
pub open spec fn slices_svg(slices: Seq<Slice>, prev_slices: Option<Seq<Slice>>) -> Seq<char>
    decreases slices.len(),
{
    if slices.len() == 0 {
        Seq::empty()
    } else {
        slices_svg(slices.drop_last(), prev_slices) + slice_svg(
            slices.last().tile_cache,
            previous_tiles(prev_slices, slices.last().tile_cache.slice),
        )
    }
}

/// The report parts of a sequence of snapshots, in its order.
pub open spec fn slices_report(
    names: Map<u64, String>,
    slices: Seq<Slice>,
    prev_slices: Option<Seq<Slice>>,
) -> Seq<char>
    decreases slices.len(),
{
    if slices.len() == 0 {
        Seq::empty()
    } else {
        slices_report(names, slices.drop_last(), prev_slices) + slice_report(
            names,
            slices.last().tile_cache,
            previous_tiles(prev_slices, slices.last().tile_cache.slice),
        )
    }
}

/// The SVG document: two stylesheets, the root element of the given size, a
/// black background and the groups of the snapshots.
pub open spec fn svg_document(
    slices: Seq<Slice>,
    prev_slices: Option<Seq<Slice>>,
    svg_width: i32,
    svg_height: i32,
) -> Seq<char> {
    "<?xml-stylesheet type=\"text/css\" href=\"tilecache_base.css\" ?>\n<?xml-stylesheet type=\"text/css\" href=\"tilecache.css\" ?>\n"@
        + "<svg version=\"1.1\" baseProfile=\"full\" xmlns=\"http://www.w3.org/2000/svg\" width=\""@
        + signed_decimal(svg_width as int) + "\" height=\""@ + signed_decimal(svg_height as int)
        + "\" >"@ + "\n"@ + "<rect fill=\"black\" width=\"100%\" height=\"100%\"/>\n"@
        + slices_svg(slices, prev_slices) + "\n</svg>\n"@
}

/// The invalidation report: its heading and the parts of the snapshots.
pub open spec fn invalidation_report(
    names: Map<u64, String>,
    slices: Seq<Slice>,
    prev_slices: Option<Seq<Slice>>,
) -> Seq<char> {
    "<div class=\"header\">Invalidation</div>\n"@ + slices_report(names, slices, prev_slices)
}

/// The largest of `start` and the indices of the snapshots.
pub open spec fn max_slice_index(slices: Seq<Slice>, start: usize) -> usize
    decreases slices.len(),
{
    if slices.len() == 0 {
        start
    } else {
        let rest = max_slice_index(slices.drop_last(), start);
        if slices.last().tile_cache.slice > rest {
            slices.last().tile_cache.slice
        } else {
            rest
        }
    }
}

/// The views of the earlier snapshots, if there are any.
pub open spec fn slices_view(prev_slices: Option<Vec<Slice>>) -> Option<Seq<Slice>> {
    match prev_slices {
        Some(slices) => Some(slices@),
        None => None,
    }
}

/// The position of the first snapshot with the index `slice`, if there is one.
pub fn find_slice(slices: &Vec<Slice>, slice: usize) -> (found: Option<usize>)
    ensures
        match found {
            Some(i) => first_match(slices@, slice, 0) == Some(i as int) && i < slices@.len()
                && slices@[i as int].tile_cache.slice == slice && forall|j: int|
                0 <= j < i ==> slices@[j].tile_cache.slice != slice,
            None => first_match(slices@, slice, 0) is None && forall|j: int|
                0 <= j < slices@.len() ==> slices@[j].tile_cache.slice != slice,
        },
{
    let mut i: usize = 0;
    while i < slices.len()
        invariant
            i <= slices@.len(),
            first_match(slices@, slice, 0) == first_match(slices@, slice, i as int),
            forall|j: int| 0 <= j < i ==> slices@[j].tile_cache.slice != slice,
        decreases slices.len() - i,
    {
        if slices[i].tile_cache.slice == slice {
            return Some(i);
        }
        i += 1;
    }
    None
}

fn push_rect_opening(buf: &mut String, rect: &SvgRect)
    ensures
        final(buf)@ == old(buf)@ + rect_opening(*rect),
{
    buf.append("<rect x=\"");
    buf.append(rect.x.as_str());
    buf.append("\" y=\"");
    buf.append(rect.y.as_str());
    buf.append("\" width=\"");
    buf.append(rect.width.as_str());
    buf.append("\" height=\"");
    buf.append(rect.height.as_str());
    buf.append("\" ");
    assert(buf@ =~= old(buf)@ + rect_opening(*rect));
}

fn title_string(slice: usize, key: TileOffset, cause: &Option<Cause>, has_prev: bool) -> (title:
    String)
    ensures
        title@ == tile_title(slice, key, *cause, has_prev),
{
    let mut title = String::new();
    match cause {
        Some(cause) => {
            if has_prev {
                title.append("<title>slice ");
                push_decimal(&mut title, slice as u64);
                title.append(" tile (");
                push_signed(&mut title, key.x as i64);
                title.append(",");
                push_signed(&mut title, key.y as i64);
                title.append(") - ");
                title.append(cause.dump.as_str());
                title.append("</title>");
            }
        },
        None => {},
    }
    assert(title@ =~= tile_title(slice, key, *cause, has_prev));
    title
}

fn push_report_entry(
    buf: &mut String,
    names: &HashMap<u64, String>,
    slice: usize,
    key: TileOffset,
    cause: &Option<Cause>,
    has_prev: bool,
)
    ensures
        final(buf)@ == old(buf)@ + report_entry(names@, slice, key, *cause, has_prev),
{
    match cause {
        Some(cause) => {
            if has_prev {
                buf.append("<div class=\"subheader\">slice ");
                push_decimal(buf, slice as u64);
                buf.append(" key (");
                push_signed(buf, key.x as i64);
                buf.append(",");
                push_signed(buf, key.y as i64);
                buf.append(")</div><div class=\"data\">");
                push_explanation(buf, names, cause);
                buf.append("</div>\n");
            }
        },
        None => {},
    }
    assert(buf@ =~= old(buf)@ + report_entry(names@, slice, key, *cause, has_prev));
}

/// Draws one tile and appends its entry to the invalidation report.
///
/// `prev_tile` is the tile under the same coordinate in the snapshot before, if
/// there is one. A tile without it, and a tile without a cause, has no tooltip
/// title and leaves the report as it was.
pub fn tile_to_svg(
    key: TileOffset,
    tile: &Tile,
    slice: &Slice,
    prev_tile: Option<&Tile>,
    itemuid_to_string: &HashMap<u64, String>,
    tile_stroke: &str,
    invalidation_report: &mut String,
) -> (svg: String)
    ensures
        svg@ == tile_svg(
            slice.tile_cache.slice,
            slice.tile_cache.background_color,
            key,
            *tile,
            prev_tile is Some,
            tile_stroke@,
        ),
        final(invalidation_report)@ == old(invalidation_report)@ + report_entry(
            itemuid_to_string@,
            slice.tile_cache.slice,
            key,
            tile.invalidation_reason,
            prev_tile is Some,
        ),
        prev_tile is None || tile.invalidation_reason is None ==> final(invalidation_report)@
            == old(invalidation_report)@,
{
    let index = slice.tile_cache.slice;
    let has_prev = prev_tile.is_some();
    let mut svg = String::new();
    svg.append("\n<!-- tile key ");
    push_signed(&mut svg, key.x as i64);
    svg.append(",");
    push_signed(&mut svg, key.y as i64);
    svg.append(" ; -->\n");

    let tile_fill = fill_style_string(
        &tile.invalidation_reason,
        tile.background_color,
        slice.tile_cache.background_color,
    );
    let title = title_string(index, key, &tile.invalidation_reason, has_prev);

    push_report_entry(
        invalidation_report,
        itemuid_to_string,
        index,
        key,
        &tile.invalidation_reason,
        has_prev,
    );

    push_rect_opening(&mut svg, &tile.rect);
    svg.append("style=\"");
    svg.append(tile_fill.as_str());
    svg.append("stroke:none;");
    svg.append("\" ></rect>");

    push_rect_opening(&mut svg, &tile.rect);
    svg.append("style=\"fill-opacity:0.001;");
    svg.append(tile_stroke);
    svg.append("\" >");
    svg.append(title.as_str());
    svg.append("</rect>");

    proof {
        assert(svg@ =~= tile_svg(
            slice.tile_cache.slice,
            slice.tile_cache.background_color,
            key,
            *tile,
            prev_tile is Some,
            tile_stroke@,
        ));
        if prev_tile is None || tile.invalidation_reason is None {
            assert(invalidation_report@ =~= old(invalidation_report)@);
        }
    }
    svg
}

/// The tiles of a snapshot that may be missing.
pub open spec fn tiles_of(slice: Option<&Slice>) -> Option<Seq<(TileOffset, Tile)>> {
    match slice {
        Some(slice) => Some(slice.tile_cache.tiles@),
        None => None,
    }
}

/// Draws the tiles of one snapshot and appends their entries to the report.
fn slice_to_svg(
    slice: &Slice,
    prev_slice: Option<&Slice>,
    itemuid_to_string: &HashMap<u64, String>,
    invalidation_report: &mut String,
) -> (svg: String)
    ensures
        svg@ == slice_svg(slice.tile_cache, tiles_of(prev_slice)),
        final(invalidation_report)@ == old(invalidation_report)@ + slice_report(
            itemuid_to_string@,
            slice.tile_cache,
            tiles_of(prev_slice),
        ),
{
    let tile_cache = &slice.tile_cache;
    let mut svg = String::new();
    invalidation_report.append("<div id=\"invalidation_slice");
    push_decimal(invalidation_report, tile_cache.slice as u64);
    invalidation_report.append("\">\n");

    svg.append("\n<g id=\"tile_slice");
    push_decimal(&mut svg, tile_cache.slice as u64);
    svg.append("_everything\">");
    svg.append("\n<!-- tile_cache slice ");
    push_decimal(&mut svg, tile_cache.slice as u64);
    svg.append(" -->\n");

    let ghost svg_head = svg@;
    let ghost report_head = invalidation_report@;
    let ghost entries = tile_cache.tiles@;
    let ghost prev = tiles_of(prev_slice);
    let count = tile_cache.tiles.len();
    let mut i: usize = 0;
    proof {
        assert(entries.take(0) =~= Seq::<(TileOffset, Tile)>::empty());
        lemma_concat_empty(svg_head);
        lemma_concat_empty(report_head);
    }
    while i < count
        invariant
            i <= count,
            count == entries.len(),
            entries == slice.tile_cache.tiles@,
            tile_cache == &slice.tile_cache,
            prev == tiles_of(prev_slice),
            svg@ == svg_head + tiles_svg(
                tile_cache.slice,
                tile_cache.background_color,
                entries.take(i as int),
                prev,
                tile_stroke(),
            ),
            invalidation_report@ == report_head + tiles_report(
                itemuid_to_string@,
                tile_cache.slice,
                entries.take(i as int),
                prev,
            ),
        decreases count - i,
    {
        let key = tile_cache.tiles.key_at(i);
        let tile = tile_cache.tiles.tile_at(i);
        let prev_tile = match prev_slice {
            Some(before) => before.tile_cache.tiles.get(key),
            None => None,
        };
        assert(prev_tile is Some == has_tile(prev, key));
        let drawn = tile_to_svg(
            key,
            tile,
            slice,
            prev_tile,
            itemuid_to_string,
            "stroke:none;",
            invalidation_report,
        );
        svg.append(drawn.as_str());
        proof {
            let next = entries.take(i + 1);
            assert(next.drop_last() =~= entries.take(i as int));
            assert(next.last() == entries[i as int]);
            lemma_concat_assoc(
                svg_head,
                tiles_svg(
                    tile_cache.slice,
                    tile_cache.background_color,
                    entries.take(i as int),
                    prev,
                    tile_stroke(),
                ),
                drawn@,
            );
            lemma_concat_assoc(
                report_head,
                tiles_report(itemuid_to_string@, tile_cache.slice, entries.take(i as int), prev),
                report_entry(
                    itemuid_to_string@,
                    tile_cache.slice,
                    key,
                    tile.invalidation_reason,
                    prev_tile is Some,
                ),
            );
        }
        i += 1;
    }
    svg.append("\n</g>");
    invalidation_report.append("</div>\n");
    proof {
        assert(entries.take(count as int) =~= entries);
        assert(svg@ =~= slice_svg(slice.tile_cache, prev));
        assert(invalidation_report@ =~= old(invalidation_report)@ + slice_report(
            itemuid_to_string@,
            slice.tile_cache,
            prev,
        ));
    }
    svg
}

/// Draws a sequence of snapshots and reports their invalidations.
///
/// Returns the SVG document and the invalidation report, the snapshots in the
/// order given, the tiles of each in map order. Each snapshot is paired with
/// the first of `prev_slices` that has its index, and each of its tiles with
/// the tile under the same coordinate there. `max_slice_index` is raised to
/// the largest index among the snapshots.
pub fn slices_to_svg(
    slices: &[Slice],
    prev_slices: Option<Vec<Slice>>,
    itemuid_to_string: &HashMap<u64, String>,
    svg_width: i32,
    svg_height: i32,
    max_slice_index: &mut usize,
) -> (documents: (String, String))
    ensures
        documents.0@ == svg_document(slices@, slices_view(prev_slices), svg_width, svg_height),
        documents.1@ == invalidation_report(
            itemuid_to_string@,
            slices@,
            slices_view(prev_slices),
        ),
        *final(max_slice_index) == self::max_slice_index(slices@, *old(max_slice_index)),
{
    let mut svg = String::new();
    let mut invalidation_report = String::new();
    invalidation_report.append("<div class=\"header\">Invalidation</div>\n");
    let ghost report_head = invalidation_report@;
    let ghost before = slices_view(prev_slices);

    let mut i: usize = 0;
    proof {
        assert(slices@.take(0) =~= Seq::<Slice>::empty());
        lemma_concat_empty(report_head);
        assert(svg@ =~= slices_svg(slices@.take(0), before));
    }
    while i < slices.len()
        invariant
            i <= slices@.len(),
            before == slices_view(prev_slices),
            svg@ == slices_svg(slices@.take(i as int), before),
            invalidation_report@ == report_head + slices_report(
                itemuid_to_string@,
                slices@.take(i as int),
                before,
            ),
            *max_slice_index == self::max_slice_index(
                slices@.take(i as int),
                *old(max_slice_index),
            ),
        decreases slices.len() - i,
    {
        let slice = &slices[i];
        if slice.tile_cache.slice > *max_slice_index {
            *max_slice_index = slice.tile_cache.slice;
        }
        let prev_slice = match &prev_slices {
            Some(prev) => match find_slice(prev, slice.tile_cache.slice) {
                Some(at) => Some(&prev[at]),
                None => None,
            },
            None => None,
        };
        assert(tiles_of(prev_slice) == previous_tiles(before, slice.tile_cache.slice));
        let group = slice_to_svg(slice, prev_slice, itemuid_to_string, &mut invalidation_report);
        svg.append(group.as_str());
        proof {
            let next = slices@.take(i + 1);
            assert(next.drop_last() =~= slices@.take(i as int));
            assert(next.last() == slices@[i as int]);
            lemma_concat_assoc(
                report_head,
                slices_report(itemuid_to_string@, slices@.take(i as int), before),
                slice_report(itemuid_to_string@, slice.tile_cache, tiles_of(prev_slice)),
            );
        }
        i += 1;
    }
    proof {
        assert(slices@.take(slices@.len() as int) =~= slices@);
    }

    let mut document = String::new();
    document.append(
        "<?xml-stylesheet type=\"text/css\" href=\"tilecache_base.css\" ?>\n<?xml-stylesheet type=\"text/css\" href=\"tilecache.css\" ?>\n",
    );
    document.append(
        "<svg version=\"1.1\" baseProfile=\"full\" xmlns=\"http://www.w3.org/2000/svg\" width=\"",
    );
    push_signed(&mut document, svg_width as i64);
    document.append("\" height=\"");
    push_signed(&mut document, svg_height as i64);
    document.append("\" >");
    document.append("\n");
    document.append("<rect fill=\"black\" width=\"100%\" height=\"100%\"/>\n");
    document.append(svg.as_str());
    document.append("\n</svg>\n");
    assert(document@ =~= svg_document(slices@, before, svg_width, svg_height));
    (document, invalidation_report)
}

/// A tile that appears for the first time is silent, whatever its cause: it has
/// no tooltip title and no entry in the report, and its tooltip rectangle is
/// empty.
pub proof fn lemma_first_appearance_is_silent(
    names: Map<u64, String>,
    slice: usize,
    key: TileOffset,
    tile: Tile,
    stroke: Seq<char>,
)
    ensures
        tile_title(slice, key, tile.invalidation_reason, false) == Seq::<char>::empty(),
        report_entry(names, slice, key, tile.invalidation_reason, false) == Seq::<char>::empty(),
        tooltip_rect(tile.rect, stroke, tile_title(slice, key, tile.invalidation_reason, false))
            == rect_opening(tile.rect) + "style=\"fill-opacity:0.001;"@ + stroke + "\" >"@
            + "</rect>"@,
{
    assert(tooltip_rect(tile.rect, stroke, Seq::<char>::empty()) =~= rect_opening(tile.rect)
        + "style=\"fill-opacity:0.001;"@ + stroke + "\" >"@ + "</rect>"@);
}

/// A tile without a cause is silent as well, whether or not the snapshot before
/// has it.
pub proof fn lemma_tile_without_cause_is_silent(
    names: Map<u64, String>,
    slice: usize,
    key: TileOffset,
    tile: Tile,
    has_prev: bool,
)
    requires
        tile.invalidation_reason is None,
    ensures
        tile_title(slice, key, tile.invalidation_reason, has_prev) == Seq::<char>::empty(),
        report_entry(names, slice, key, tile.invalidation_reason, has_prev) == Seq::<
            char,
        >::empty(),
{
}

/// Where there is no snapshot before, or none with the index of the snapshot,
/// no tile of the snapshot has a tile before it, and the report on the snapshot
/// holds no entry.
pub proof fn lemma_first_snapshot_reports_nothing(
    names: Map<u64, String>,
    slice: usize,
    entries: Seq<(TileOffset, Tile)>,
)
    ensures
        tiles_report(names, slice, entries, None) == Seq::<char>::empty(),
    decreases entries.len(),
{
    if entries.len() > 0 {
        lemma_first_snapshot_reports_nothing(names, slice, entries.drop_last());
        lemma_concat_empty(Seq::<char>::empty());
    }
}

/// The groups of a sequence of snapshots made of two runs are the groups of the
/// first run followed by those of the second: the drawing keeps the order of
/// the snapshots.
pub proof fn lemma_slices_svg_keeps_order(a: Seq<Slice>, b: Seq<Slice>, prev: Option<Seq<Slice>>)
    ensures
        slices_svg(a + b, prev) == slices_svg(a, prev) + slices_svg(b, prev),
    decreases b.len(),
{
    if b.len() == 0 {
        assert(a + b =~= a);
        lemma_concat_empty(slices_svg(a, prev));
    } else {
        lemma_slices_svg_keeps_order(a, b.drop_last(), prev);
        assert((a + b).drop_last() =~= a + b.drop_last());
        assert((a + b).last() == b.last());
        lemma_concat_assoc(
            slices_svg(a, prev),
            slices_svg(b.drop_last(), prev),
            slice_svg(b.last().tile_cache, previous_tiles(prev, b.last().tile_cache.slice)),
        );
    }
}

/// The report parts of a sequence of snapshots made of two runs are the parts
/// of the first run followed by those of the second.
pub proof fn lemma_slices_report_keeps_order(
    names: Map<u64, String>,
    a: Seq<Slice>,
    b: Seq<Slice>,
    prev: Option<Seq<Slice>>,
)
    ensures
        slices_report(names, a + b, prev) == slices_report(names, a, prev) + slices_report(
            names,
            b,
            prev,
        ),
    decreases b.len(),
{
    if b.len() == 0 {
        assert(a + b =~= a);
        lemma_concat_empty(slices_report(names, a, prev));
    } else {
        lemma_slices_report_keeps_order(names, a, b.drop_last(), prev);
        assert((a + b).drop_last() =~= a + b.drop_last());
        assert((a + b).last() == b.last());
        lemma_concat_assoc(
            slices_report(names, a, prev),
            slices_report(names, b.drop_last(), prev),
            slice_report(
                names,
                b.last().tile_cache,
                previous_tiles(prev, b.last().tile_cache.slice),
            ),
        );
    }
}

/// The drawings of the tiles of two runs are those of the first run followed
/// by those of the second: each tile is drawn once, in map order.
pub proof fn lemma_tiles_svg_keeps_order(
    slice: usize,
    fallback_background: Option<Rgb>,
    a: Seq<(TileOffset, Tile)>,
    b: Seq<(TileOffset, Tile)>,
    prev: Option<Seq<(TileOffset, Tile)>>,
    stroke: Seq<char>,
)
    ensures
        tiles_svg(slice, fallback_background, a + b, prev, stroke) == tiles_svg(
            slice,
            fallback_background,
            a,
            prev,
            stroke,
        ) + tiles_svg(slice, fallback_background, b, prev, stroke),
    decreases b.len(),
{
    if b.len() == 0 {
        assert(a + b =~= a);
        lemma_concat_empty(tiles_svg(slice, fallback_background, a, prev, stroke));
    } else {
        lemma_tiles_svg_keeps_order(slice, fallback_background, a, b.drop_last(), prev, stroke);
        assert((a + b).drop_last() =~= a + b.drop_last());
        assert((a + b).last() == b.last());
        lemma_concat_assoc(
            tiles_svg(slice, fallback_background, a, prev, stroke),
            tiles_svg(slice, fallback_background, b.drop_last(), prev, stroke),
            tile_svg(
                slice,
                fallback_background,
                b.last().0,
                b.last().1,
                has_tile(prev, b.last().0),
                stroke,
            ),
        );
    }
}

/// The report entries of the tiles of two runs are those of the first run
/// followed by those of the second: each tile is reported at most once, in map
/// order.
pub proof fn lemma_tiles_report_keeps_order(
    names: Map<u64, String>,
    slice: usize,
    a: Seq<(TileOffset, Tile)>,
    b: Seq<(TileOffset, Tile)>,
    prev: Option<Seq<(TileOffset, Tile)>>,
)
    ensures
        tiles_report(names, slice, a + b, prev) == tiles_report(names, slice, a, prev)
            + tiles_report(names, slice, b, prev),
    decreases b.len(),
{
    if b.len() == 0 {
        assert(a + b =~= a);
        lemma_concat_empty(tiles_report(names, slice, a, prev));
    } else {
        lemma_tiles_report_keeps_order(names, slice, a, b.drop_last(), prev);
        assert((a + b).drop_last() =~= a + b.drop_last());
        assert((a + b).last() == b.last());
        lemma_concat_assoc(
            tiles_report(names, slice, a, prev),
            tiles_report(names, slice, b.drop_last(), prev),
            report_entry(
                names,
                slice,
                b.last().0,
                b.last().1.invalidation_reason,
                has_tile(prev, b.last().0),
            ),
        );
    }
}

/// The largest index is at least the start and at least the index of every
/// snapshot, and it is the start or the index of one of the snapshots.
pub proof fn lemma_max_slice_index(slices: Seq<Slice>, start: usize)
    ensures
        max_slice_index(slices, start) >= start,
        forall|i: int|
            0 <= i < slices.len() ==> max_slice_index(slices, start)
                >= #[trigger] slices[i].tile_cache.slice,
        max_slice_index(slices, start) == start || exists|i: int|
            0 <= i < slices.len() && max_slice_index(slices, start)
                == #[trigger] slices[i].tile_cache.slice,
    decreases slices.len(),
{
    if slices.len() > 0 {
        let front = slices.drop_last();
        lemma_max_slice_index(front, start);
        let rest = max_slice_index(front, start);
        assert forall|i: int| 0 <= i < slices.len() implies max_slice_index(slices, start)
            >= #[trigger] slices[i].tile_cache.slice by {
            if i < slices.len() - 1 {
                assert(front[i] == slices[i]);
            }
        }
        if max_slice_index(slices, start) != start {
            if slices.last().tile_cache.slice > rest {
                assert(slices[slices.len() - 1].tile_cache.slice == max_slice_index(slices, start));
            } else {
                let i = choose|i: int|
                    0 <= i < front.len() && rest == #[trigger] front[i].tile_cache.slice;
                assert(slices[i].tile_cache.slice == rest);
            }
        }
    }
}

/// A tile cache of one tile is drawn by one pair of rectangles and reported by
/// the entry of that tile.
pub proof fn lemma_single_tile(
    names: Map<u64, String>,
    slice: usize,
    fallback_background: Option<Rgb>,
    key: TileOffset,
    tile: Tile,
    prev: Option<Seq<(TileOffset, Tile)>>,
    stroke: Seq<char>,
)
    ensures
        tiles_svg(slice, fallback_background, seq![(key, tile)], prev, stroke) == tile_svg(
            slice,
            fallback_background,
            key,
            tile,
            has_tile(prev, key),
            stroke,
        ),
        tiles_report(names, slice, seq![(key, tile)], prev) == report_entry(
            names,
            slice,
            key,
            tile.invalidation_reason,
            has_tile(prev, key),
        ),
{
    let one = seq![(key, tile)];
    assert(one.drop_last() =~= Seq::<(TileOffset, Tile)>::empty());
    assert(one.last() == (key, tile));
    lemma_concat_empty(tile_svg(slice, fallback_background, key, tile, has_tile(prev, key), stroke));
    lemma_concat_empty(
        report_entry(names, slice, key, tile.invalidation_reason, has_tile(prev, key)),
    );
    assert(tiles_svg(slice, fallback_background, one.drop_last(), prev, stroke) == Seq::<
        char,
    >::empty());
    assert(tiles_report(names, slice, one.drop_last(), prev) == Seq::<char>::empty());
}

} // verus!
