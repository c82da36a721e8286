//! Filters that pick inscriptions by what their content is.

use std::sync::Arc;
use vstd::prelude::*;
use vstd::string::StringExecFns;
use vstd::string::StringSliceAdditionalSpecFns;

use crate::content::ParsedDataView;
use crate::error::ParseError;
use crate::inscription::{inscriptions_view, Inscription, InscriptionView};
use crate::options::index_if;
use crate::text::{equals, equals_ignoring_case};

verus! {

/// A kind of content to pick inscriptions by.
#[derive(Debug, Copy, Clone, PartialEq, Eq, PartialOrd, Ord, Structural)]
pub enum Filter {
    Text,
    Json,
    Brc20,
    Html,
    Image,
}

/// The bytes of the ASCII text `text`.
pub open spec fn name_text() -> Seq<u8> {
    seq![0x74u8, 0x65u8, 0x78u8, 0x74u8]
}

/// The bytes of the ASCII text `json`.
pub open spec fn name_json() -> Seq<u8> {
    seq![0x6au8, 0x73u8, 0x6fu8, 0x6eu8]
}

/// The bytes of the ASCII text `brc20`.
pub open spec fn name_brc20() -> Seq<u8> {
    seq![0x62u8, 0x72u8, 0x63u8, 0x32u8, 0x30u8]
}

/// The bytes of the ASCII text `brc-20`.
pub open spec fn name_brc20_dashed() -> Seq<u8> {
    seq![0x62u8, 0x72u8, 0x63u8, 0x2du8, 0x32u8, 0x30u8]
}

/// The bytes of the ASCII text `html`.
pub open spec fn name_html() -> Seq<u8> {
    seq![0x68u8, 0x74u8, 0x6du8, 0x6cu8]
}

/// The bytes of the ASCII text `image`.
pub open spec fn name_image() -> Seq<u8> {
    seq![0x69u8, 0x6du8, 0x61u8, 0x67u8, 0x65u8]
}

/// The filter that a text names, capital and small letters being the same:
/// `text`, `json`, `brc20` or `brc-20`, `html`, `image`.
pub open spec fn filter_from_text(text: Seq<u8>) -> Option<Filter> {
    if equals_ignoring_case(text, name_text()) {
        Some(Filter::Text)
    } else if equals_ignoring_case(text, name_json()) {
        Some(Filter::Json)
    } else if equals_ignoring_case(text, name_brc20()) || equals_ignoring_case(
        text,
        name_brc20_dashed(),
    ) {
        Some(Filter::Brc20)
    } else if equals_ignoring_case(text, name_html()) {
        Some(Filter::Html)
    } else if equals_ignoring_case(text, name_image()) {
        Some(Filter::Image)
    } else {
        None
    }
}

/// Whether one of the filters accepts the content.
pub open spec fn any_accepts(filters: Seq<Filter>, parsed: ParsedDataView) -> bool {
    exists|k: int| 0 <= k < filters.len() && (#[trigger] filters[k]).accepts(parsed)
}

/// Whether content passes a set of filters: an empty set lets everything
/// pass, any other set what one of its filters accepts.
pub open spec fn passes(filters: Seq<Filter>, parsed: ParsedDataView) -> bool {
    filters.len() == 0 || any_accepts(filters, parsed)
}

/// The inscriptions of a list that pass the filters, in their order.
pub open spec fn kept(list: Seq<InscriptionView>, filters: Seq<Filter>) -> Seq<InscriptionView>
    decreases list.len(),
{
    if list.len() == 0 {
        Seq::empty()
    } else {
        let before = kept(list.drop_last(), filters);
        if passes(filters, list.last().parsed) {
            before.push(list.last())
        } else {
            before
        }
    }
}

/// The entries of `chosen` that are `filter`.
pub open spec fn occurrences(chosen: Seq<Filter>, filter: Filter) -> Seq<Filter>
    decreases chosen.len(),
{
    if chosen.len() == 0 {
        Seq::empty()
    } else {
        occurrences(chosen.drop_last(), filter) + if chosen.last() == filter {
            seq![filter]
        } else {
            Seq::empty()
        }
    }
}

/// The entries of `chosen` in the order of the filters: first every
/// `Text`, then every `Json`, and so on.
pub open spec fn in_order(chosen: Seq<Filter>) -> Seq<Filter> {
    occurrences(chosen, Filter::Text) + occurrences(chosen, Filter::Json) + occurrences(
        chosen,
        Filter::Brc20,
    ) + occurrences(chosen, Filter::Html) + occurrences(chosen, Filter::Image)
}

/// The positions, in the list of all filters, of those that are among
/// `filters`, in rising order.
pub open spec fn positions(filters: Seq<Filter>) -> Seq<usize> {
    index_if(filters.contains(Filter::Text), 0) + index_if(filters.contains(Filter::Json), 1)
        + index_if(filters.contains(Filter::Brc20), 2) + index_if(
        filters.contains(Filter::Html),
        3,
    ) + index_if(filters.contains(Filter::Image), 4)
}

impl Filter {
    /// What the filter accepts.
    pub open spec fn accepts(self, parsed: ParsedDataView) -> bool {
        match self {
            Filter::Text => parsed.is_text(),
            Filter::Json => parsed is Json,
            Filter::Brc20 => parsed.is_brc20(),
            Filter::Html => parsed is Html,
            Filter::Image => parsed is Image,
        }
    }

    /// The name under which the filter is shown.
    pub open spec fn label(self) -> Seq<char> {
        match self {
            Filter::Text => "Text"@,
            Filter::Json => "JSON"@,
            Filter::Brc20 => "BRC-20"@,
            Filter::Html => "HTML"@,
            Filter::Image => "Image"@,
        }
    }

    /// All filters, in their order.
    pub fn all() -> (r: Vec<Filter>)
        ensures
            r@ == seq![Filter::Text, Filter::Json, Filter::Brc20, Filter::Html, Filter::Image],
    {
        let mut list: Vec<Filter> = Vec::new();
        list.push(Filter::Text);
        list.push(Filter::Json);
        list.push(Filter::Brc20);
        list.push(Filter::Html);
        list.push(Filter::Image);
        assert(list@ =~= seq![
            Filter::Text,
            Filter::Json,
            Filter::Brc20,
            Filter::Html,
            Filter::Image,
        ]);
        list
    }

    /// Tells whether the filter accepts an inscription.
    pub fn inscription(&self, inscription: &Inscription) -> (r: bool)
        ensures
            r == self.accepts(inscription@.parsed),
    {
        match self {
            Filter::Text => inscription.parsed.is_text(),
            Filter::Json => inscription.parsed.is_json(),
            Filter::Brc20 => inscription.parsed.is_brc20(),
            Filter::Html => inscription.parsed.is_html(),
            Filter::Image => inscription.parsed.is_image(),
        }
    }

    /// The name under which the filter is shown.
    pub fn to_string(&self) -> (r: String)
        ensures
            r@ == self.label(),
    {
        match self {
            Filter::Text => String::from_str("Text"),
            Filter::Json => String::from_str("JSON"),
            Filter::Brc20 => String::from_str("BRC-20"),
            Filter::Html => String::from_str("HTML"),
            Filter::Image => String::from_str("Image"),
        }
    }

    /// Reads a filter from its name, capital and small letters being the
    /// same.
    pub fn from_str(s: &str) -> (r: Result<Filter, ParseError>)
        ensures
            match r {
                Ok(filter) => filter_from_text(s.spec_bytes()) == Some(filter),
                Err(e) => e == ParseError::UnknownFilter && filter_from_text(s.spec_bytes())
                    is None,
            },
    {
        let bytes = s.as_bytes();
        let text: [u8; 4] = [0x74, 0x65, 0x78, 0x74];
        let json: [u8; 4] = [0x6a, 0x73, 0x6f, 0x6e];
        let brc20: [u8; 5] = [0x62, 0x72, 0x63, 0x32, 0x30];
        let dashed: [u8; 6] = [0x62, 0x72, 0x63, 0x2d, 0x32, 0x30];
        let html: [u8; 4] = [0x68, 0x74, 0x6d, 0x6c];
        let image: [u8; 5] = [0x69, 0x6d, 0x61, 0x67, 0x65];
        assert(text@ =~= name_text());
        assert(json@ =~= name_json());
        assert(brc20@ =~= name_brc20());
        assert(dashed@ =~= name_brc20_dashed());
        assert(html@ =~= name_html());
        assert(image@ =~= name_image());
        if equals(bytes, text.as_slice()) {
            Ok(Filter::Text)
        } else if equals(bytes, json.as_slice()) {
            Ok(Filter::Json)
        } else if equals(bytes, brc20.as_slice()) || equals(bytes, dashed.as_slice()) {
            Ok(Filter::Brc20)
        } else if equals(bytes, html.as_slice()) {
            Ok(Filter::Html)
        } else if equals(bytes, image.as_slice()) {
            Ok(Filter::Image)
        } else {
            Err(ParseError::UnknownFilter)
        }
    }
}

/// Tells whether a filter is among `filters`.
pub fn is_among(filters: &[Filter], filter: Filter) -> (r: bool)
    ensures
        r == filters@.contains(filter),
{
    let n = filters.len();
    let mut k: usize = 0;
    while k < n
        invariant
            k <= n,
            n == filters@.len(),
            forall|j: int| 0 <= j < k ==> filters@[j] != filter,
        decreases n - k,
    {
        if filters[k] == filter {
            return true;
        }
        k = k + 1;
    }
    false
}

/// The positions, in the list of all filters, of those that are among
/// `filters`, in rising order.
pub fn selected_positions(filters: &[Filter]) -> (r: Vec<usize>)
    ensures
        r@ == positions(filters@),
{
    let mut found: Vec<usize> = Vec::new();
    let ghost mut so_far: Seq<usize> = Seq::empty();
    if is_among(filters, Filter::Text) {
        found.push(0);
    }
    proof {
        so_far = index_if(filters@.contains(Filter::Text), 0);
        assert(found@ =~= so_far);
    }
    if is_among(filters, Filter::Json) {
        found.push(1);
    }
    proof {
        assert(found@ =~= so_far + index_if(filters@.contains(Filter::Json), 1));
        so_far = found@;
    }
    if is_among(filters, Filter::Brc20) {
        found.push(2);
    }
    proof {
        assert(found@ =~= so_far + index_if(filters@.contains(Filter::Brc20), 2));
        so_far = found@;
    }
    if is_among(filters, Filter::Html) {
        found.push(3);
    }
    proof {
        assert(found@ =~= so_far + index_if(filters@.contains(Filter::Html), 3));
        so_far = found@;
    }
    if is_among(filters, Filter::Image) {
        found.push(4);
    }
    proof {
        assert(found@ =~= so_far + index_if(filters@.contains(Filter::Image), 4));
    }
    found
}

fn push_occurrences(out: &mut Vec<Filter>, chosen: &[Filter], filter: Filter)
    ensures
        final(out)@ == old(out)@ + occurrences(chosen@, filter),
{
    let n = chosen.len();
    let mut k: usize = 0;
    assert(chosen@.subrange(0, 0) =~= Seq::<Filter>::empty());
    assert(out@ =~= old(out)@ + occurrences(chosen@.subrange(0, 0), filter));
    while k < n
        invariant
            k <= n,
            n == chosen@.len(),
            out@ == old(out)@ + occurrences(chosen@.subrange(0, k as int), filter),
        decreases n - k,
    {
        let ghost before = out@;
        let ghost longer = chosen@.subrange(0, k + 1);
        assert(longer.drop_last() =~= chosen@.subrange(0, k as int));
        assert(longer.last() == chosen@[k as int]);
        if chosen[k] == filter {
            out.push(filter);
            assert(out@ =~= old(out)@ + occurrences(longer, filter));
        } else {
            assert(out@ =~= old(out)@ + occurrences(longer, filter));
        }
        k = k + 1;
    }
    assert(chosen@.subrange(0, n as int) =~= chosen@);
}

/// Puts chosen filters in the order of the filters.
pub fn sorted(chosen: &[Filter]) -> (r: Vec<Filter>)
    ensures
        r@ == in_order(chosen@),
{
    let mut out: Vec<Filter> = Vec::new();
    push_occurrences(&mut out, chosen, Filter::Text);
    assert(out@ =~= occurrences(chosen@, Filter::Text));
    push_occurrences(&mut out, chosen, Filter::Json);
    push_occurrences(&mut out, chosen, Filter::Brc20);
    push_occurrences(&mut out, chosen, Filter::Html);
    push_occurrences(&mut out, chosen, Filter::Image);
    out
}

/// Tells whether one of the filters accepts an inscription.
pub fn accepted_by_any(filters: &[Filter], inscription: &Inscription) -> (r: bool)
    ensures
        r == any_accepts(filters@, inscription@.parsed),
{
    let n = filters.len();
    let mut k: usize = 0;
    while k < n
        invariant
            k <= n,
            n == filters@.len(),
            forall|j: int| 0 <= j < k ==> !(#[trigger] filters@[j]).accepts(inscription@.parsed),
        decreases n - k,
    {
        if filters[k].inscription(inscription) {
            return true;
        }
        k = k + 1;
    }
    false
}

/// Tells whether an inscription passes a set of filters. With no filter
/// given, every inscription passes.
pub fn passes_filters(filters: &[Filter], inscription: &Inscription) -> (r: bool)
    ensures
        r == passes(filters@, inscription@.parsed),
{
    filters.len() == 0 || accepted_by_any(filters, inscription)
}

/// Keeps the inscriptions that pass the filters, in their order.
pub fn keep_matching(list: &Vec<Arc<Inscription>>, filters: &[Filter]) -> (r: Vec<
    Arc<Inscription>,
>)
    ensures
        inscriptions_view(r@) == kept(inscriptions_view(list@), filters@),
{
    let ghost model = inscriptions_view(list@);
    let mut out: Vec<Arc<Inscription>> = Vec::new();
    let n = list.len();
    let mut k: usize = 0;
    assert(model.subrange(0, 0) =~= Seq::<InscriptionView>::empty());
    assert(inscriptions_view(out@) =~= Seq::<InscriptionView>::empty());
    while k < n
        invariant
            k <= n,
            n == list@.len(),
            model == inscriptions_view(list@),
            inscriptions_view(out@) == kept(model.subrange(0, k as int), filters@),
        decreases n - k,
    {
        let ghost before = inscriptions_view(out@);
        let ghost longer = model.subrange(0, k + 1);
        assert(longer.drop_last() =~= model.subrange(0, k as int));
        assert(longer.last() == list@[k as int]@);
        if passes_filters(filters, &list[k]) {
            out.push(list[k].clone());
            assert(inscriptions_view(out@) =~= before.push(list@[k as int]@));
        }
        k = k + 1;
    }
    assert(model.subrange(0, n as int) =~= model);
    out
}

} // verus!
