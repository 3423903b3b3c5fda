//! Sites, and the resolution of a site name against a locations table.

use crate::error::{Error, ErrorView};
use crate::text::{
    chars_of, contains, has_infix, is_real_number_text, is_real_text, lower, lowered, same_chars,
    string_of, trim, trimmed,
};
use crate::time::{Civil, Timestamp};
use vstd::prelude::*;

verus! {

/// All the available information about a site as retrieved from the store.
#[derive(Debug)]
pub struct SiteInfo {
    /// The alpha numeric identifier of the location. This should be unique and this library
    /// assumes that it is.
    pub id: String,
    /// The name of the location. This may not be unique in the store.
    pub name: String,
    /// The state/province for this location.
    pub state_prov: String,
    /// The latitude of the location, as the locations table writes it.
    pub latitude: String,
    /// The longitude of the location, as the locations table writes it.
    pub longitude: String,
}

/// What a `SiteInfo` holds, as mathematical values.
pub struct SiteInfoView {
    pub id: Seq<char>,
    pub name: Seq<char>,
    pub state_prov: Seq<char>,
    pub latitude: Seq<char>,
    pub longitude: Seq<char>,
}

impl View for SiteInfo {
    type V = SiteInfoView;

    open spec fn view(&self) -> SiteInfoView {
        SiteInfoView {
            id: self.id@,
            name: self.name@,
            state_prov: self.state_prov@,
            latitude: self.latitude@,
            longitude: self.longitude@,
        }
    }
}

impl Clone for SiteInfo {
    fn clone(&self) -> (r: Self)
        ensures
            r@ == self@,
    {
        SiteInfo {
            id: self.id.clone(),
            name: self.name.clone(),
            state_prov: self.state_prov.clone(),
            latitude: self.latitude.clone(),
            longitude: self.longitude.clone(),
        }
    }
}

impl SiteInfo {
    /// Create a new SiteInfo object.
    pub fn new(
        name: String,
        id: String,
        latitude: String,
        longitude: String,
        state_prov: String,
    ) -> (r: Self)
        ensures
            r@ == (SiteInfoView {
                id: id@,
                name: name@,
                state_prov: state_prov@,
                latitude: latitude@,
                longitude: longitude@,
            }),
    {
        Self { name, id, latitude, longitude, state_prov }
    }
}

/// The views of the sites in `sites`, in order.
pub open spec fn site_views(sites: Seq<SiteInfo>) -> Seq<SiteInfoView> {
    sites.map_values(|s: SiteInfo| s@)
}

/// The fields of a record, as sequences of characters.
pub open spec fn record_view(record: Vec<String>) -> Seq<Seq<char>> {
    record@.map_values(|field: String| field@)
}

/// The records of a table, each as the sequence of its fields.
pub open spec fn table_view(records: Seq<Vec<String>>) -> Seq<Seq<Seq<char>>> {
    records.map_values(|record: Vec<String>| record_view(record))
}

/// Whether a record describes a site: it has the five fields id, name, state,
/// latitude and longitude, and the last two are texts of real numbers.
pub open spec fn is_site_record(record: Seq<Seq<char>>) -> bool {
    &&& record.len() >= 5
    &&& is_real_text(record[3])
    &&& is_real_text(record[4])
}

/// The site that a record describes: id, name and state without the white space
/// around them, the coordinates as written.
pub open spec fn site_of_record(record: Seq<Seq<char>>) -> SiteInfoView {
    SiteInfoView {
        id: trim(record[0]),
        name: trim(record[1]),
        state_prov: trim(record[2]),
        latitude: record[3],
        longitude: record[4],
    }
}

/// Whether one of `sites` has the identifier `id`.
pub open spec fn has_id(sites: Seq<SiteInfoView>, id: Seq<char>) -> bool {
    exists|i: int| 0 <= i < sites.len() && #[trigger] sites[i].id == id
}

/// The sites of a locations table, in the order of the table: the records that
/// describe a site, the first one only of those that share an identifier.
pub open spec fn locations(records: Seq<Seq<Seq<char>>>) -> Seq<SiteInfoView>
    decreases records.len(),
{
    if records.len() == 0 {
        Seq::empty()
    } else {
        let before = locations(records.drop_last());
        let record = records.last();
        if is_site_record(record) && !has_id(before, site_of_record(record).id) {
            before.push(site_of_record(record))
        } else {
            before
        }
    }
}

/// Whether the identifier of `site` is `query`, capitals and small letters taken
/// as the same.
pub open spec fn is_exact_match(site: SiteInfoView, query: Seq<char>) -> bool {
    lower(site.id) == lower(query)
}

/// Whether `site` resembles `query`, capitals and small letters taken as the same:
/// its identifier or its name contains `query`, or its state is `query`.
pub open spec fn is_similar(site: SiteInfoView, query: Seq<char>) -> bool {
    ||| contains(lower(site.id), lower(query))
    ||| contains(lower(site.name), lower(query))
    ||| lower(site.state_prov) == lower(query)
}

/// The first of `sites` whose identifier is `query`.
pub open spec fn exact_match(sites: Seq<SiteInfoView>, query: Seq<char>) -> Option<SiteInfoView>
    decreases sites.len(),
{
    if sites.len() == 0 {
        None
    } else if is_exact_match(sites[0], query) {
        Some(sites[0])
    } else {
        exact_match(sites.drop_first(), query)
    }
}

/// Those of `sites` that resemble `query`, in order.
pub open spec fn similar_sites(sites: Seq<SiteInfoView>, query: Seq<char>) -> Seq<SiteInfoView> {
    sites.filter(|s: SiteInfoView| is_similar(s, query))
}

/// The site that `query` names among `sites`: the exact match where there is one;
/// else the only site that resembles `query`; else a failure that holds the query
/// where no site resembles it, and all that do where several do.
pub open spec fn resolve(sites: Seq<SiteInfoView>, query: Seq<char>) -> Result<
    SiteInfoView,
    ErrorView,
> {
    match exact_match(sites, query) {
        Some(site) => Ok(site),
        None => {
            let candidates = similar_sites(sites, query);
            if candidates.len() == 0 {
                Err(ErrorView::NoMatch(query))
            } else if candidates.len() == 1 {
                Ok(candidates[0])
            } else {
                Err(ErrorView::AmbiguousSite { matches: candidates })
            }
        },
    }
}

/// What a resolution holds, as mathematical values.
pub open spec fn resolution_view(r: Result<SiteInfo, Error>) -> Result<SiteInfoView, ErrorView> {
    match r {
        Ok(site) => Ok(site@),
        Err(e) => Err(e@),
    }
}

fn id_is_known(sites: &Vec<SiteInfo>, id: &String) -> (r: bool)
    ensures
        r == has_id(site_views(sites@), id@),
{
    let mut i: usize = 0;
    while i < sites.len()
        invariant
            i <= sites.len(),
            forall|j: int| 0 <= j < i ==> (#[trigger] site_views(sites@)[j]).id != id@,
        decreases sites.len() - i,
    {
        if sites[i].id == *id {
            assert(site_views(sites@)[i as int].id == id@);
            return true;
        }
        i += 1;
    }
    false
}

fn trimmed_field(field: &String) -> (r: String)
    ensures
        r@ == trim(field@),
{
    let chars = chars_of(field.as_str());
    let kept = trimmed(&chars);
    string_of(&kept)
}

fn is_real_field(field: &String) -> (r: bool)
    ensures
        r == is_real_text(field@),
{
    let chars = chars_of(field.as_str());
    is_real_number_text(&chars)
}

/// The sites of the locations table whose records are `records`.
pub fn build_locations_database(records: &Vec<Vec<String>>) -> (sites: Vec<SiteInfo>)
    ensures
        site_views(sites@) == locations(table_view(records@)),
{
    let mut sites: Vec<SiteInfo> = Vec::new();
    let mut i: usize = 0;
    assert(table_view(records@).take(0) =~= Seq::empty());
    assert(site_views(sites@) =~= Seq::empty());
    while i < records.len()
        invariant
            i <= records.len(),
            site_views(sites@) == locations(table_view(records@).take(i as int)),
        decreases records.len() - i,
    {
        let record = &records[i];
        let ghost table = table_view(records@);
        let ghost before = site_views(sites@);
        assert(table.take(i + 1).drop_last() =~= table.take(i as int));
        assert(table.take(i + 1).last() == record_view(*record));
        if record.len() >= 5 && is_real_field(&record[3]) && is_real_field(&record[4]) {
            let id = trimmed_field(&record[0]);
            if !id_is_known(&sites, &id) {
                let name = trimmed_field(&record[1]);
                let state_prov = trimmed_field(&record[2]);
                let site = SiteInfo::new(
                    name,
                    id,
                    record[3].clone(),
                    record[4].clone(),
                    state_prov,
                );
                sites.push(site);
                assert(site_views(sites@) =~= before.push(site_of_record(record_view(*record))));
            }
        }
        i += 1;
    }
    assert(table_view(records@).take(records@.len() as int) =~= table_view(records@));
    sites
}

fn lowered_field(field: &String) -> (r: Vec<char>)
    ensures
        r@ == lower(field@),
{
    let chars = chars_of(field.as_str());
    lowered(&chars)
}

/// The first of `sites` whose identifier is `site`, capitals and small letters
/// taken as the same.
pub fn find_exact_case_insensitive_match(sites: &Vec<SiteInfo>, site: &str) -> (r: Option<
    SiteInfo,
>)
    ensures
        r is Some <==> exact_match(site_views(sites@), site@) is Some,
        r matches Some(found) ==> Some(found@) == exact_match(site_views(sites@), site@),
{
    let query = lowered(&chars_of(site));
    let ghost all = site_views(sites@);
    let mut i: usize = 0;
    assert(all.skip(0) =~= all);
    while i < sites.len()
        invariant
            i <= sites.len(),
            all == site_views(sites@),
            query@ == lower(site@),
            exact_match(all, site@) == exact_match(all.skip(i as int), site@),
        decreases sites.len() - i,
    {
        let id = lowered_field(&sites[i].id);
        assert(all.skip(i as int)[0] == sites@[i as int]@);
        if same_chars(&id, &query) {
            return Some(sites[i].clone());
        }
        assert(all.skip(i as int).drop_first() =~= all.skip(i + 1));
        i += 1;
    }
    None
}

/// Those of `sites` that resemble `site`, in order.
pub fn find_similar_sites(sites: &Vec<SiteInfo>, site: &str) -> (r: Vec<SiteInfo>)
    ensures
        site_views(r@) == similar_sites(site_views(sites@), site@),
{
    let query = lowered(&chars_of(site));
    let ghost all = site_views(sites@);
    let ghost pred = |s: SiteInfoView| is_similar(s, site@);
    let mut found: Vec<SiteInfo> = Vec::new();
    let mut i: usize = 0;
    proof {
        reveal(Seq::filter);
        assert(all.take(0) =~= Seq::empty());
        assert(site_views(found@) =~= Seq::empty());
    }
    while i < sites.len()
        invariant
            i <= sites.len(),
            all == site_views(sites@),
            query@ == lower(site@),
            pred == (|s: SiteInfoView| is_similar(s, site@)),
            site_views(found@) == all.take(i as int).filter(pred),
        decreases sites.len() - i,
    {
        let candidate = &sites[i];
        let id = lowered_field(&candidate.id);
        let name = lowered_field(&candidate.name);
        let state_prov = lowered_field(&candidate.state_prov);
        let ghost before = site_views(found@);
        proof {
            reveal(Seq::filter);
            assert(all.take(i + 1).drop_last() =~= all.take(i as int));
            assert(all.take(i + 1).last() == candidate@);
        }
        if has_infix(&id, &query) || has_infix(&name, &query) || same_chars(&state_prov, &query) {
            found.push(candidate.clone());
            assert(site_views(found@) =~= before.push(candidate@));
        }
        i += 1;
    }
    assert(all.take(sites@.len() as int) =~= all);
    found
}

/// The site that `site` names in the locations table whose records are `records`.
pub fn resolve_site(site: &str, records: &Vec<Vec<String>>) -> (r: Result<SiteInfo, Error>)
    ensures
        resolution_view(r) == resolve(locations(table_view(records@)), site@),
{
    let sites = build_locations_database(records);
    match find_exact_case_insensitive_match(&sites, site) {
        Some(found) => { return Ok(found); },
        None => {},
    }
    let matches = find_similar_sites(&sites, site);
    if matches.len() == 0 {
        Err(Error::NoMatch(site.to_owned()))
    } else if matches.len() > 1 {
        Err(Error::AmbiguousSite { matches })
    } else {
        Ok(matches[0].clone())
    }
}

/// The records that the csv crate reads from the text of a table without a header
/// row, each as the sequence of its fields; records that the crate reports as
/// faulty are left out.
pub uninterp spec fn csv_records(text: Seq<char>) -> Seq<Seq<Seq<char>>>;

/// Reads `text` as CSV with the csv crate: `ReaderBuilder::has_headers(false)` and
/// `ReaderBuilder::from_reader` make the reader, `Reader::records` walks the
/// records and `StringRecord::iter` their fields. The records read depend on the
/// text alone.
#[verifier::external_body]
fn read_records(text: &str) -> (records: Vec<Vec<String>>)
    ensures
        table_view(records@) == csv_records(text@),
{
    let mut reader = csv::ReaderBuilder::new().has_headers(false).from_reader(text.as_bytes());
    let mut records: Vec<Vec<String>> = Vec::new();
    for record in reader.records() {
        if let Ok(record) = record {
            let mut fields: Vec<String> = Vec::new();
            for field in record.iter() {
                fields.push(field.to_owned());
            }
            records.push(fields);
        }
    }
    records
}

/// Validate a site against the text of a locations table.
pub fn validate(site: &str, locations_str: &str) -> (r: Result<SiteInfo, Error>)
    ensures
        resolution_view(r) == resolve(locations(csv_records(locations_str@)), site@),
{
    let records = read_records(locations_str);
    resolve_site(site, &records)
}

/// This is the result of validating a request for data from a site at a specific time.
///
/// This includes all the information available about the site and the most recent
/// initialization time that this site has data available. The most recent time depends on the
/// time for which data was requested, and the initialization time will always be the nearest
/// time before the requested time.
#[derive(Debug)]
pub struct SiteValidation {
    /// The information about the validated site as retrieved from the store.
    pub site: SiteInfo,
    /// The initialization time for which data is available. This may be different than the time
    /// for which data was requested.
    pub initialization_time: Timestamp,
}

/// What a `SiteValidation` holds, as mathematical values.
pub struct SiteValidationView {
    pub site: SiteInfoView,
    pub initialization_time: Civil,
}

impl View for SiteValidation {
    type V = SiteValidationView;

    open spec fn view(&self) -> SiteValidationView {
        SiteValidationView { site: self.site@, initialization_time: self.initialization_time@ }
    }
}

impl Clone for SiteValidation {
    fn clone(&self) -> (r: Self)
        ensures
            r@ == self@,
    {
        SiteValidation { site: self.site.clone(), initialization_time: self.initialization_time }
    }
}

/// The name of the file that holds the data of the site with identifier `id`.
pub open spec fn site_file_name(id: Seq<char>) -> Seq<char> {
    id + seq!['.', 'c', 's', 'v']
}

impl SiteValidation {
    /// Create a new SiteValidation object.
    pub fn new(site: SiteInfo, initialization_time: Timestamp) -> (r: Self)
        ensures
            r@ == (SiteValidationView { site: site@, initialization_time: initialization_time@ }),
    {
        Self { site, initialization_time }
    }

    /// Get the file name associated with the validation.
    pub fn file_name(&self) -> (r: String)
        ensures
            r@ == site_file_name(self@.site.id),
    {
        let mut name = self.site.id.clone();
        name.push('.');
        name.push('c');
        name.push('s');
        name.push('v');
        assert(name@ =~= site_file_name(self@.site.id));
        name
    }
}

/// The index of the first of `sites` whose identifier is `query`, up to `i`.
proof fn lemma_first_exact_match(sites: Seq<SiteInfoView>, query: Seq<char>, i: int) -> (k: int)
    requires
        0 <= i < sites.len(),
        is_exact_match(sites[i], query),
    ensures
        0 <= k <= i,
        is_exact_match(sites[k], query),
        exact_match(sites, query) == Some(sites[k]),
        forall|j: int| 0 <= j < k ==> !is_exact_match(#[trigger] sites[j], query),
    decreases sites.len(),
{
    if is_exact_match(sites[0], query) {
        0
    } else {
        let rest = sites.drop_first();
        let k = lemma_first_exact_match(rest, query, i - 1);
        assert forall|j: int| 0 <= j < k + 1 implies !is_exact_match(#[trigger] sites[j], query) by {
            if j > 0 {
                assert(sites[j] == rest[j - 1]);
            }
        }
        k + 1
    }
}

/// Where a site of the table has the query as its identifier, capitals and small
/// letters taken as the same, the query resolves to the first such site, whatever
/// other sites resemble the query.
pub proof fn lemma_exact_match_wins(sites: Seq<SiteInfoView>, query: Seq<char>, i: int)
    requires
        0 <= i < sites.len(),
        is_exact_match(sites[i], query),
    ensures
        exists|k: int|
            0 <= k <= i && is_exact_match(#[trigger] sites[k], query) && resolve(sites, query)
                == Ok::<SiteInfoView, ErrorView>(sites[k]) && forall|j: int|
                0 <= j < k ==> !is_exact_match(#[trigger] sites[j], query),
{
    let k = lemma_first_exact_match(sites, query, i);
    assert(is_exact_match(sites[k], query));
}

proof fn lemma_exact_match_ignores_case(sites: Seq<SiteInfoView>, a: Seq<char>, b: Seq<char>)
    requires
        lower(a) == lower(b),
    ensures
        exact_match(sites, a) == exact_match(sites, b),
    decreases sites.len(),
{
    if sites.len() > 0 {
        lemma_exact_match_ignores_case(sites.drop_first(), a, b);
    }
}

proof fn lemma_similar_sites_ignore_case(sites: Seq<SiteInfoView>, a: Seq<char>, b: Seq<char>)
    requires
        lower(a) == lower(b),
    ensures
        similar_sites(sites, a) == similar_sites(sites, b),
    decreases sites.len(),
{
    reveal(Seq::filter);
    if sites.len() > 0 {
        lemma_similar_sites_ignore_case(sites.drop_last(), a, b);
    }
}

/// Two queries that differ only in the case of their letters resolve alike: to the
/// same site, to the same list of candidates, or each to no match.
pub proof fn lemma_resolution_ignores_case(sites: Seq<SiteInfoView>, a: Seq<char>, b: Seq<char>)
    requires
        lower(a) == lower(b),
    ensures
        resolve(sites, a) is Ok ==> resolve(sites, b) == resolve(sites, a),
        resolve(sites, a) matches Err(ErrorView::AmbiguousSite { .. }) ==> resolve(sites, b)
            == resolve(sites, a),
        resolve(sites, a) == Err::<SiteInfoView, ErrorView>(ErrorView::NoMatch(a)) <==> resolve(
            sites,
            b,
        ) == Err::<SiteInfoView, ErrorView>(ErrorView::NoMatch(b)),
{
    lemma_exact_match_ignores_case(sites, a, b);
    lemma_similar_sites_ignore_case(sites, a, b);
}

/// A query resolves to a site of the table that is its exact match, or else the
/// only one that resembles it; several candidates are all the sites that
/// resemble it, and no match is reported only where none does.
pub proof fn lemma_resolution_is_sound(sites: Seq<SiteInfoView>, query: Seq<char>)
    ensures
        resolve(sites, query) matches Ok(site) ==> sites.contains(site) && (is_exact_match(
            site,
            query,
        ) || is_similar(site, query)),
        resolve(sites, query) matches Err(ErrorView::AmbiguousSite { matches }) ==> matches.len()
            >= 2 && forall|i: int|
            0 <= i < matches.len() ==> sites.contains(#[trigger] matches[i]) && is_similar(
                matches[i],
                query,
            ),
        resolve(sites, query) matches Err(e) ==> e == ErrorView::NoMatch(query) || e
            is AmbiguousSite,
        resolve(sites, query) == Err::<SiteInfoView, ErrorView>(ErrorView::NoMatch(query))
            ==> forall|i: int|
            0 <= i < sites.len() ==> !is_exact_match(#[trigger] sites[i], query) && !is_similar(
                sites[i],
                query,
            ),
{
    let pred = |s: SiteInfoView| is_similar(s, query);
    let candidates = similar_sites(sites, query);
    lemma_exact_match_is_in_table(sites, query);
    assert forall|i: int| 0 <= i < candidates.len() implies sites.contains(
        #[trigger] candidates[i],
    ) && is_similar(candidates[i], query) by {
        sites.lemma_filter_pred(pred, i);
        assert(candidates.contains(candidates[i]));
        sites.lemma_filter_contains_rev(pred, candidates[i]);
    }
    if candidates.len() == 0 {
        assert forall|i: int| 0 <= i < sites.len() implies !is_similar(#[trigger] sites[i], query) by {
            if is_similar(sites[i], query) {
                assert(pred(sites[i]));
                sites.lemma_filter_contains(pred, i);
            }
        }
    }
}

proof fn lemma_exact_match_is_in_table(sites: Seq<SiteInfoView>, query: Seq<char>)
    ensures
        exact_match(sites, query) matches Some(site) ==> sites.contains(site) && is_exact_match(
            site,
            query,
        ),
        exact_match(sites, query) is None ==> forall|i: int|
            0 <= i < sites.len() ==> !is_exact_match(#[trigger] sites[i], query),
    decreases sites.len(),
{
    if sites.len() > 0 {
        let rest = sites.drop_first();
        lemma_exact_match_is_in_table(rest, query);
        if !is_exact_match(sites[0], query) {
            if exact_match(rest, query) is Some {
                let site = exact_match(rest, query).unwrap();
                let k = choose|k: int| 0 <= k < rest.len() && rest[k] == site;
                assert(sites[k + 1] == site);
            } else {
                assert forall|i: int| 0 <= i < sites.len() implies !is_exact_match(
                    #[trigger] sites[i],
                    query,
                ) by {
                    if i > 0 {
                        assert(sites[i] == rest[i - 1]);
                    }
                }
            }
        }
    }
}

/// No two sites of a locations table share an identifier, and each site is the
/// one that a record of the table describes.
pub proof fn lemma_locations_are_distinct(records: Seq<Seq<Seq<char>>>)
    ensures
        forall|i: int, j: int|
            0 <= i < j < locations(records).len() ==> (#[trigger] locations(records)[i]).id != (
            #[trigger] locations(records)[j]).id,
        forall|i: int|
            0 <= i < locations(records).len() ==> exists|k: int|
                0 <= k < records.len() && is_site_record(records[k]) && #[trigger] locations(
                    records,
                )[i] == site_of_record(#[trigger] records[k]),
        locations(records).len() <= records.len(),
    decreases records.len(),
{
    if records.len() > 0 {
        let front = records.drop_last();
        lemma_locations_are_distinct(front);
        let before = locations(front);
        assert forall|i: int| 0 <= i < locations(records).len() implies exists|k: int|
            0 <= k < records.len() && is_site_record(records[k]) && #[trigger] locations(records)[i]
                == site_of_record(#[trigger] records[k]) by {
            if i < before.len() {
                let k = choose|k: int|
                    0 <= k < front.len() && is_site_record(front[k]) && before[i] == site_of_record(
                        #[trigger] front[k],
                    );
                assert(records[k] == front[k]);
            } else {
                assert(locations(records)[i] == site_of_record(records[records.len() - 1]));
            }
        }
    }
}

} // verus!
