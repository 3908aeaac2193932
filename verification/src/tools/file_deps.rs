//! Dependencies between files: what a file imports, and what imports it.

use vstd::prelude::*;
use vstd::string::*;

use crate::json::{items_view, no_fields, Json, JsonObject, JsonView};
use crate::text::{decimal, from_chars, push_decimal, same_text, to_chars};
use crate::tools::args::{capped, number_arg, number_of, text_arg, text_of, to_count};
use crate::tools::call_graph::places_view;
use crate::tools::symbols::{contains_symbol, ids_view, SymbolId};
use crate::tools::unresolved::in_range;

verus! {

/// How many dependencies a response lists at most.
pub const MAX_LISTED_DEPENDENCIES: usize = 100;

/// Which dependencies of a file are asked for.
#[derive(Clone, Copy, Debug, PartialEq, Eq, Structural)]
pub enum DependencySide {
    /// The files that depend on it.
    Incoming,
    /// The files that it depends on.
    Outgoing,
    Both,
}

/// The side with a name: outgoing, where there is none.
pub open spec fn named_side(name: Seq<char>) -> Option<DependencySide> {
    if name == "incoming"@ {
        Some(DependencySide::Incoming)
    } else if name == "outgoing"@ || name.len() == 0 {
        Some(DependencySide::Outgoing)
    } else if name == "both"@ {
        Some(DependencySide::Both)
    } else {
        None
    }
}

fn find_side(name: &str) -> (side: Option<DependencySide>)
    ensures
        side == named_side(name@),
{
    if same_text(name, "incoming") {
        Some(DependencySide::Incoming)
    } else if same_text(name, "outgoing") || name.is_empty() {
        Some(DependencySide::Outgoing)
    } else if same_text(name, "both") {
        Some(DependencySide::Both)
    } else {
        None
    }
}

/// A path without the references to the current directory at its start.
pub open spec fn without_here(path: Seq<char>) -> Seq<char>
    decreases path.len(),
{
    if path.len() >= 2 && path[0] == '.' && path[1] == '/' {
        without_here(path.skip(2))
    } else {
        path
    }
}

/// A path without the slashes at its start.
pub open spec fn without_root(path: Seq<char>) -> Seq<char>
    decreases path.len(),
{
    if path.len() >= 1 && path[0] == '/' {
        without_root(path.skip(1))
    } else {
        path
    }
}

/// A path as it is stored: relative to the project.
pub open spec fn stored_path(path: Seq<char>) -> Seq<char> {
    without_root(without_here(path))
}

/// A path as it is stored.
pub fn clean_path(path: &str) -> (clean: String)
    ensures
        clean@ == stored_path(path@),
{
    let chars = to_chars(path);
    let total: usize = chars.len();
    let mut start: usize = 0;
    proof {
        assert(chars@.skip(0) =~= chars@);
    }
    while total - start >= 2 && chars[start] == '.' && chars[start + 1] == '/'
        invariant
            start <= total,
            total == chars@.len(),
            without_here(chars@) == without_here(chars@.skip(start as int)),
        decreases total - start,
    {
        proof {
            assert(chars@.skip(start as int).skip(2) =~= chars@.skip(start + 2));
        }
        start = start + 2;
    }
    let ghost inner = chars@.skip(start as int);
    proof {
        assert(without_here(chars@) == inner);
    }
    while start < total && chars[start] == '/'
        invariant
            start <= total,
            total == chars@.len(),
            without_root(inner) == without_root(chars@.skip(start as int)),
        decreases total - start,
    {
        proof {
            assert(chars@.skip(start as int).skip(1) =~= chars@.skip(start + 1));
        }
        start = start + 1;
    }
    proof {
        assert(chars@.subrange(start as int, total as int) =~= chars@.skip(start as int));
    }
    from_chars(&chars, start, total)
}

/// What a request for file dependencies asks for.
pub struct FileDepsPlan {
    pub file_path: String,
    /// The path as it is stored.
    pub stored_path: String,
    pub side: DependencySide,
    /// Whether files are analysed first.
    pub structural: bool,
    pub limit: usize,
}

/// Why a request for file dependencies is refused.
pub open spec fn file_deps_refusal(args: JsonView) -> Option<Seq<char>> {
    let direction = text_of(args, "direction"@);
    let analysis = text_of(args, "analysis"@);
    if text_of(args, "file_path"@).len() == 0 {
        Some("Missing required 'file_path' parameter"@)
    } else if named_side(direction) is None {
        Some(
            "Unknown direction: '"@ + direction
                + "'. Must be one of: incoming, outgoing, both"@,
        )
    } else if analysis.len() > 0 && analysis != "manifest"@ && analysis != "structural"@ {
        Some(
            "Unknown analysis mode: '"@ + analysis + "'. Must be one of: manifest, structural"@,
        )
    } else {
        None
    }
}

/// Reads a request for file dependencies.
pub fn plan_file_dependencies(args: &Json) -> (plan: Result<FileDepsPlan, String>)
    ensures
        match plan {
            Ok(p) => file_deps_refusal(args@) is None && p.file_path@ == text_of(
                args@,
                "file_path"@,
            ) && p.stored_path@ == stored_path(p.file_path@) && named_side(
                text_of(args@, "direction"@),
            ) == Some(p.side) && p.structural == (text_of(args@, "analysis"@).len() > 0 && text_of(
                args@,
                "analysis"@,
            ) != "manifest"@) && p.limit == capped(number_of(args@, "limit"@, 50)),
            Err(e) => file_deps_refusal(args@) == Some(e@),
        },
{
    let file_path = text_arg(args, "file_path");
    if file_path.as_str().is_empty() {
        return Err("Missing required 'file_path' parameter".to_owned());
    }
    let direction = text_arg(args, "direction");
    let side = match find_side(direction.as_str()) {
        Some(s) => s,
        None => {
            let mut message = "Unknown direction: '".to_owned();
            message.append(direction.as_str());
            message.append("'. Must be one of: incoming, outgoing, both");
            return Err(message);
        },
    };
    let analysis = text_arg(args, "analysis");
    let manifest = analysis.as_str().is_empty() || same_text(analysis.as_str(), "manifest");
    if !manifest && !same_text(analysis.as_str(), "structural") {
        let mut message = "Unknown analysis mode: '".to_owned();
        message.append(analysis.as_str());
        message.append("'. Must be one of: manifest, structural");
        return Err(message);
    }
    let stored = clean_path(file_path.as_str());
    Ok(
        FileDepsPlan {
            file_path,
            stored_path: stored,
            side,
            structural: !manifest,
            limit: to_count(number_arg(args, "limit", 50)),
        },
    )
}

/// Why a file cannot be used, from what the store says of it.
pub open spec fn file_lookup_message(
    lookup: Result<bool, String>,
    file_path: Seq<char>,
) -> Option<Seq<char>> {
    match lookup {
        Ok(true) => None,
        Ok(false) => Some("File not found: "@ + file_path),
        Err(e) => Some("Failed to resolve file: "@ + e@),
    }
}

/// Checks what the store says of a file.
pub fn check_file_lookup(lookup: &Result<bool, String>, file_path: &str) -> (checked: Result<
    (),
    String,
>)
    ensures
        match checked {
            Ok(_) => file_lookup_message(*lookup, file_path@) is None,
            Err(e) => file_lookup_message(*lookup, file_path@) == Some(e@),
        },
{
    match lookup {
        Ok(true) => Ok(()),
        Ok(false) => {
            let mut message = "File not found: ".to_owned();
            message.append(file_path);
            Err(message)
        },
        Err(e) => {
            let mut message = "Failed to resolve file: ".to_owned();
            message.append(e.as_str());
            Err(message)
        },
    }
}

/// Something that a file imports.
pub struct ImportRow {
    pub module: String,
    pub imported_name: String,
    pub kind: String,
}

/// How many entries are listed of some.
pub open spec fn listed_count(total: nat, limit: nat) -> nat {
    let cap = if limit < MAX_LISTED_DEPENDENCIES {
        limit
    } else {
        MAX_LISTED_DEPENDENCIES as nat
    };
    if total < cap {
        total
    } else {
        cap
    }
}

/// An import as it is listed.
pub open spec fn import_view(row: ImportRow) -> JsonView {
    JsonView::Object(
        no_fields().insert("module"@, JsonView::Str(row.module@)).insert(
            "imported_name"@,
            JsonView::Str(row.imported_name@),
        ).insert("kind"@, JsonView::Str(row.kind@)),
    )
}

/// What a file imports.
pub open spec fn dependencies_fields(
    file: Seq<char>,
    file_id: Seq<char>,
    imports: Seq<ImportRow>,
    limit: nat,
) -> Map<Seq<char>, JsonView> {
    no_fields().insert("file"@, JsonView::Str(file)).insert(
        "file_id"@,
        JsonView::Str(file_id),
    ).insert("total_dependencies"@, JsonView::Unsigned(imports.len() as u64)).insert(
        "dependencies"@,
        JsonView::Array(
            Seq::new(listed_count(imports.len(), limit), |i: int| import_view(imports[i])),
        ),
    )
}

/// What is answered for a file whose imports are asked for.
pub open spec fn dependencies_reply(
    file: Seq<char>,
    file_id: Seq<char>,
    imports: Result<Vec<ImportRow>, String>,
    limit: nat,
    reply: Result<Json, String>,
) -> bool {
    match imports {
        Ok(rows) => reply matches Ok(body) && body@ == JsonView::Object(
            dependencies_fields(file, file_id, rows@, limit),
        ),
        Err(e) => reply matches Err(message) && message@ == "Failed to query imports: "@ + e@,
    }
}

/// What a file imports.
pub fn dependencies_body(
    file: &str,
    file_id: &str,
    imports: &Result<Vec<ImportRow>, String>,
    limit: usize,
) -> (reply: Result<Json, String>)
    ensures
        dependencies_reply(file@, file_id@, *imports, limit as nat, reply),
{
    let rows = match imports {
        Ok(rows) => rows,
        Err(e) => {
            let mut message = "Failed to query imports: ".to_owned();
            message.append(e.as_str());
            return Err(message);
        },
    };
    let mut items: Vec<Json> = Vec::new();
    let mut i: usize = 0;
    while i < rows.len() && i < limit && i < MAX_LISTED_DEPENDENCIES
        invariant
            i <= rows@.len(),
            i <= limit,
            i <= MAX_LISTED_DEPENDENCIES,
            items@.len() == i,
            forall|j: int| 0 <= j < i ==> (#[trigger] items@[j])@ == import_view(rows@[j]),
        decreases rows@.len() - i,
    {
        let mut object = JsonObject::new();
        object.put("module", Json::text(rows[i].module.as_str()));
        object.put("imported_name", Json::text(rows[i].imported_name.as_str()));
        object.put("kind", Json::text(rows[i].kind.as_str()));
        items.push(Json::Object(object));
        i = i + 1;
    }
    proof {
        assert(items_view(items@) =~= Seq::new(
            listed_count(rows@.len(), limit as nat),
            |i: int| import_view(rows@[i]),
        ));
    }
    let mut object = JsonObject::new();
    object.put("file", Json::text(file));
    object.put("file_id", Json::text(file_id));
    object.put("total_dependencies", Json::count(rows.len()));
    object.put("dependencies", Json::Array(items));
    Ok(Json::Object(object))
}

/// A file that imports another.
pub struct DependentRow {
    pub file: String,
    pub module: String,
}

/// A dependent as it is listed.
pub open spec fn dependent_view(row: DependentRow) -> JsonView {
    JsonView::Object(
        no_fields().insert("file"@, JsonView::Str(row.file@)).insert(
            "import"@,
            JsonView::Str(row.module@),
        ),
    )
}

/// What imports a file.
pub open spec fn dependents_fields(
    file: Seq<char>,
    rows: Seq<DependentRow>,
    limit: nat,
) -> Map<Seq<char>, JsonView> {
    no_fields().insert("file"@, JsonView::Str(file)).insert(
        "total_dependents"@,
        JsonView::Unsigned(rows.len() as u64),
    ).insert(
        "dependents"@,
        JsonView::Array(
            Seq::new(listed_count(rows.len(), limit), |i: int| dependent_view(rows[i])),
        ),
    )
}

/// What is answered for a file whose dependents are asked for.
pub open spec fn dependents_reply(
    file: Seq<char>,
    dependents: Result<Vec<DependentRow>, String>,
    limit: nat,
    reply: Result<Json, String>,
) -> bool {
    match dependents {
        Ok(rows) => reply matches Ok(body) && body@ == JsonView::Object(
            dependents_fields(file, rows@, limit),
        ),
        Err(e) => reply matches Err(message) && message@ == "Failed to query dependents: "@ + e@,
    }
}

/// What imports a file.
pub fn dependents_body(
    file: &str,
    dependents: &Result<Vec<DependentRow>, String>,
    limit: usize,
) -> (reply: Result<Json, String>)
    ensures
        dependents_reply(file@, *dependents, limit as nat, reply),
{
    let rows = match dependents {
        Ok(rows) => rows,
        Err(e) => {
            let mut message = "Failed to query dependents: ".to_owned();
            message.append(e.as_str());
            return Err(message);
        },
    };
    let mut items: Vec<Json> = Vec::new();
    let mut i: usize = 0;
    while i < rows.len() && i < limit && i < MAX_LISTED_DEPENDENCIES
        invariant
            i <= rows@.len(),
            i <= limit,
            i <= MAX_LISTED_DEPENDENCIES,
            items@.len() == i,
            forall|j: int| 0 <= j < i ==> (#[trigger] items@[j])@ == dependent_view(rows@[j]),
        decreases rows@.len() - i,
    {
        let mut object = JsonObject::new();
        object.put("file", Json::text(rows[i].file.as_str()));
        object.put("import", Json::text(rows[i].module.as_str()));
        items.push(Json::Object(object));
        i = i + 1;
    }
    proof {
        assert(items_view(items@) =~= Seq::new(
            listed_count(rows@.len(), limit as nat),
            |i: int| dependent_view(rows@[i]),
        ));
    }
    let mut object = JsonObject::new();
    object.put("file", Json::text(file));
    object.put("total_dependents", Json::count(rows.len()));
    object.put("dependents", Json::Array(items));
    Ok(Json::Object(object))
}

/// The body of one side; nothing, where it could not be had.
pub open spec fn side_or_null(side: Result<Json, String>) -> JsonView {
    match side {
        Ok(body) => body@,
        Err(_) => JsonView::Null,
    }
}

/// The body of one side; nothing, where it could not be had.
pub fn side_body(side: &Result<Json, String>) -> (body: Json)
    ensures
        body@ == side_or_null(*side),
{
    match side {
        Ok(body) => body.clone(),
        Err(_) => Json::Null,
    }
}

/// What is answered for both sides.
pub open spec fn both_sides(outgoing: JsonView, incoming: JsonView) -> JsonView {
    JsonView::Object(
        no_fields().insert("outgoing"@, outgoing).insert("incoming"@, incoming),
    )
}

/// The response to a request for file dependencies, after the file was analysed.
pub open spec fn structural_view(
    side: DependencySide,
    outgoing: Result<Json, String>,
    incoming: Result<Json, String>,
) -> JsonView {
    match side {
        DependencySide::Incoming => side_or_null(incoming),
        DependencySide::Outgoing => side_or_null(outgoing),
        DependencySide::Both => both_sides(side_or_null(outgoing), side_or_null(incoming)),
    }
}

/// Whether a side that is asked for could not be had.
pub open spec fn side_failed(
    side: DependencySide,
    outgoing: Result<Json, String>,
    incoming: Result<Json, String>,
) -> bool {
    match side {
        DependencySide::Incoming => incoming is Err,
        DependencySide::Outgoing => outgoing is Err,
        DependencySide::Both => outgoing is Err || incoming is Err,
    }
}

/// The response to a request for file dependencies, after the file was analysed,
/// and whether it is an error.
pub fn structural_body(
    side: DependencySide,
    outgoing: &Result<Json, String>,
    incoming: &Result<Json, String>,
) -> (reply: (Json, bool))
    ensures
        reply.0@ == structural_view(side, *outgoing, *incoming),
        reply.1 == side_failed(side, *outgoing, *incoming),
{
    match side {
        DependencySide::Incoming => (side_body(incoming), incoming.is_err()),
        DependencySide::Outgoing => (side_body(outgoing), outgoing.is_err()),
        DependencySide::Both => {
            let mut object = JsonObject::new();
            object.put("outgoing", side_body(outgoing));
            object.put("incoming", side_body(incoming));
            (Json::Object(object), outgoing.is_err() || incoming.is_err())
        },
    }
}

/// The body of a side that rests on what is stored; an empty one, where it could
/// not be had.
pub open spec fn side_or_empty(side: Result<Json, String>) -> JsonView {
    match side {
        Ok(body) => body@,
        Err(_) => JsonView::Object(no_fields()),
    }
}

/// The body of a side that rests on what is stored.
pub fn manifest_side(side: &Result<Json, String>) -> (body: Json)
    ensures
        body@ == side_or_empty(*side),
{
    match side {
        Ok(body) => body.clone(),
        Err(_) => Json::Object(JsonObject::new()),
    }
}

/// What is said of how far the analysis reaches.
pub open spec fn structural_summary_of(built_files: nat) -> Seq<char> {
    if built_files > 0 {
        "Lazy-built "@ + decimal(built_files) + " files (structural mode)"@
    } else {
        "Full index available"@
    }
}

/// What is said of how far the analysis reaches.
pub fn structural_summary(built_files: usize) -> (summary: String)
    ensures
        summary@ == structural_summary_of(built_files as nat),
{
    if built_files > 0 {
        let mut summary = "Lazy-built ".to_owned();
        push_decimal(&mut summary, built_files as u64);
        summary.append(" files (structural mode)");
        summary
    } else {
        "Full index available".to_owned()
    }
}

/// How many dependencies over symbols may be added to those over imports.
pub open spec fn room_left(limit: nat, body: JsonView, total_name: Seq<char>) -> nat {
    let used = match body.unsigned_field(total_name) {
        Some(n) => n as nat,
        None => 0,
    };
    if used < limit {
        (limit - used) as nat
    } else {
        0
    }
}

/// How many dependencies over symbols may be added to a side.
pub fn edge_budget(limit: usize, side: &Result<Json, String>, total_name: &str) -> (room: usize)
    ensures
        room == room_left(limit as nat, side_or_null(*side), total_name@),
{
    match side {
        Ok(body) => match body.get_u64(total_name) {
            Some(used) => if used < limit as u64 {
                limit - used as usize
            } else {
                0
            },
            None => limit,
        },
        Err(_) => limit,
    }
}

/// An edge between symbols.
#[derive(Clone, Copy, Debug, PartialEq, Eq)]
pub struct SymbolEdge {
    pub source: SymbolId,
    pub target: SymbolId,
}

/// The far end of an edge that crosses the border of a file in a direction.
pub open spec fn crossing(
    edge: SymbolEdge,
    own: Seq<Seq<u8>>,
    incoming: bool,
) -> Option<Seq<u8>> {
    let (near, far) = if incoming {
        (edge.target@, edge.source@)
    } else {
        (edge.source@, edge.target@)
    };
    if own.contains(near) && !own.contains(far) {
        Some(far)
    } else {
        None
    }
}

/// The symbols of other files at the far ends of edges, each once, in order.
pub open spec fn crossing_ends(
    edges: Seq<SymbolEdge>,
    own: Seq<Seq<u8>>,
    incoming: bool,
) -> Seq<Seq<u8>>
    decreases edges.len(),
{
    if edges.len() == 0 {
        Seq::empty()
    } else {
        let before = crossing_ends(edges.drop_last(), own, incoming);
        match crossing(edges.last(), own, incoming) {
            Some(far) => if before.contains(far) {
                before
            } else {
                before.push(far)
            },
            None => before,
        }
    }
}

/// The symbols of other files that are connected with the symbols of a file: those
/// that use them, or those that they use.
pub fn connected_symbols(own: &Vec<SymbolId>, edges: &Vec<SymbolEdge>, incoming: bool) -> (ids: Vec<
    SymbolId,
>)
    ensures
        ids_view(ids@) == crossing_ends(edges@, ids_view(own@), incoming),
{
    let mut ids: Vec<SymbolId> = Vec::new();
    let mut i: usize = 0;
    proof {
        assert(edges@.take(0) =~= Seq::empty());
        assert(ids_view(ids@) =~= Seq::empty());
    }
    while i < edges.len()
        invariant
            i <= edges@.len(),
            ids_view(ids@) == crossing_ends(edges@.take(i as int), ids_view(own@), incoming),
        decreases edges@.len() - i,
    {
        proof {
            assert(edges@.take(i + 1).drop_last() =~= edges@.take(i as int));
        }
        let near = if incoming {
            edges[i].target
        } else {
            edges[i].source
        };
        let far = if incoming {
            edges[i].source
        } else {
            edges[i].target
        };
        if contains_symbol(own, near) && !contains_symbol(own, far) && !contains_symbol(
            &ids,
            far,
        ) {
            let ghost before = ids@;
            ids.push(far);
            proof {
                assert(ids_view(ids@) =~= ids_view(before).push(far@));
            }
        }
        i = i + 1;
    }
    proof {
        assert(edges@.take(i as int) =~= edges@);
    }
    ids
}

/// A symbol of another file.
pub struct ForeignSymbol {
    pub path: String,
    pub name: String,
}

/// Whether one of the symbols at some places is of the same file.
pub open spec fn file_is_among(symbols: Seq<ForeignSymbol>, places: Seq<int>, at: int) -> bool {
    exists|i: int| 0 <= i < places.len() && symbols[#[trigger] places[i]].path@ == symbols[at].path@
}

/// The places of the first symbol of each file, for as many files as asked for.
pub open spec fn file_places(symbols: Seq<ForeignSymbol>, max: nat, n: nat) -> Seq<int>
    decreases n,
{
    if n == 0 {
        Seq::empty()
    } else {
        let before = file_places(symbols, max, (n - 1) as nat);
        if before.len() >= max || file_is_among(symbols, before, n - 1) {
            before
        } else {
            before.push(n - 1)
        }
    }
}

fn check_file_among(symbols: &Vec<ForeignSymbol>, places: &Vec<usize>, at: usize) -> (among: bool)
    requires
        in_range(places@, symbols@.len()),
        at < symbols@.len(),
    ensures
        among == file_is_among(symbols@, places_view(places@), at as int),
{
    let mut i: usize = 0;
    while i < places.len()
        invariant
            i <= places@.len(),
            in_range(places@, symbols@.len()),
            at < symbols@.len(),
            forall|j: int|
                0 <= j < i ==> symbols@[#[trigger] places_view(places@)[j]].path@
                    != symbols@[at as int].path@,
        decreases places@.len() - i,
    {
        if same_text(symbols[places[i]].path.as_str(), symbols[at].path.as_str()) {
            proof {
                assert(places_view(places@)[i as int] == places@[i as int]);
            }
            return true;
        }
        i = i + 1;
    }
    false
}

proof fn lemma_files_settle(symbols: Seq<ForeignSymbol>, max: nat, n: nat, m: nat)
    requires
        n <= m,
        file_places(symbols, max, n).len() >= max,
    ensures
        file_places(symbols, max, m) == file_places(symbols, max, n),
    decreases m - n,
{
    if n < m {
        lemma_files_settle(symbols, max, n, (m - 1) as nat);
    }
}

fn find_files(symbols: &Vec<ForeignSymbol>, max: usize) -> (places: Vec<usize>)
    ensures
        places_view(places@) == file_places(symbols@, max as nat, symbols@.len()),
        in_range(places@, symbols@.len()),
{
    let mut places: Vec<usize> = Vec::new();
    let mut i: usize = 0;
    proof {
        assert(places_view(places@) =~= Seq::empty());
    }
    while i < symbols.len() && places.len() < max
        invariant
            i <= symbols@.len(),
            in_range(places@, symbols@.len()),
            places_view(places@) == file_places(symbols@, max as nat, i as nat),
        decreases symbols@.len() - i,
    {
        if !check_file_among(symbols, &places, i) {
            let ghost before = places@;
            places.push(i);
            proof {
                assert(places_view(places@) =~= places_view(before).push(i as int));
            }
        }
        i = i + 1;
    }
    proof {
        if i < symbols@.len() {
            lemma_files_settle(symbols@, max as nat, i as nat, symbols@.len());
        }
    }
    places
}

/// A file that is connected over symbols, as it is listed.
pub open spec fn foreign_view(symbol: ForeignSymbol, incoming: bool) -> JsonView {
    if incoming {
        JsonView::Object(
            no_fields().insert("file"@, JsonView::Str(symbol.path@)).insert(
                "import"@,
                JsonView::Str("symbol_edge"@),
            ),
        )
    } else {
        JsonView::Object(
            no_fields().insert("module"@, JsonView::Str(symbol.path@)).insert(
                "imported_name"@,
                JsonView::Str(symbol.name@),
            ).insert("kind"@, JsonView::Str("symbol_edge"@)),
        )
    }
}

/// The files that are connected over symbols, as they are listed.
pub open spec fn connected_view(
    symbols: Seq<ForeignSymbol>,
    incoming: bool,
    max: nat,
) -> Seq<JsonView> {
    let places = file_places(symbols, max, symbols.len());
    Seq::new(places.len(), |i: int| foreign_view(symbols[places[i]], incoming))
}

/// The files whose symbols use those of a file, each once, as many as there is room
/// for.
pub fn manifest_edge_dependents(symbols: &Vec<ForeignSymbol>, max_results: usize) -> (json: Json)
    ensures
        json@ == JsonView::Array(connected_view(symbols@, true, max_results as nat)),
{
    connected_files(symbols, true, max_results)
}

/// The files whose symbols those of a file use, each once, as many as there is room
/// for.
pub fn manifest_edge_dependencies(symbols: &Vec<ForeignSymbol>, max_results: usize) -> (json: Json)
    ensures
        json@ == JsonView::Array(connected_view(symbols@, false, max_results as nat)),
{
    connected_files(symbols, false, max_results)
}

fn connected_files(symbols: &Vec<ForeignSymbol>, incoming: bool, max: usize) -> (json: Json)
    ensures
        json@ == JsonView::Array(connected_view(symbols@, incoming, max as nat)),
{
    let places = find_files(symbols, max);
    let ghost listed = places_view(places@);
    let mut items: Vec<Json> = Vec::new();
    let mut i: usize = 0;
    while i < places.len()
        invariant
            i <= places@.len(),
            in_range(places@, symbols@.len()),
            listed == places_view(places@),
            items@.len() == i,
            forall|j: int|
                0 <= j < i ==> (#[trigger] items@[j])@ == foreign_view(
                    symbols@[listed[j]],
                    incoming,
                ),
        decreases places@.len() - i,
    {
        let symbol = &symbols[places[i]];
        let mut object = JsonObject::new();
        if incoming {
            object.put("file", Json::text(symbol.path.as_str()));
            object.put("import", Json::text("symbol_edge"));
        } else {
            object.put("module", Json::text(symbol.path.as_str()));
            object.put("imported_name", Json::text(symbol.name.as_str()));
            object.put("kind", Json::text("symbol_edge"));
        }
        items.push(Json::Object(object));
        i = i + 1;
    }
    proof {
        assert(items_view(items@) =~= connected_view(symbols@, incoming, max as nat));
    }
    Json::Array(items)
}

/// The response to a request for both sides that rests on what is stored.
pub open spec fn manifest_both(
    outgoing: JsonView,
    incoming: JsonView,
    analysis: JsonView,
) -> JsonView {
    JsonView::Object(
        no_fields().insert("outgoing"@, outgoing).insert("incoming"@, incoming).insert(
            "analysis"@,
            analysis,
        ),
    )
}

/// The response to a request for both sides that rests on what is stored.
pub fn manifest_both_body(outgoing: Json, incoming: Json, analysis: Json) -> (body: Json)
    ensures
        body@ == manifest_both(outgoing@, incoming@, analysis@),
{
    let mut object = JsonObject::new();
    object.put("outgoing", outgoing);
    object.put("incoming", incoming);
    object.put("analysis", analysis);
    Json::Object(object)
}

/// No symbol of a file counts as connected with it, and none counts twice.
pub proof fn law_own_symbols_are_not_connected(
    edges: Seq<SymbolEdge>,
    own: Seq<Seq<u8>>,
    incoming: bool,
)
    ensures
        crossing_ends(edges, own, incoming).no_duplicates(),
        forall|i: int|
            0 <= i < crossing_ends(edges, own, incoming).len() ==> !own.contains(
                #[trigger] crossing_ends(edges, own, incoming)[i],
            ),
    decreases edges.len(),
{
    if edges.len() > 0 {
        law_own_symbols_are_not_connected(edges.drop_last(), own, incoming);
        let before = crossing_ends(edges.drop_last(), own, incoming);
        let all = crossing_ends(edges, own, incoming);
        assert forall|i: int| 0 <= i < all.len() implies !own.contains(#[trigger] all[i]) by {
            if i < before.len() {
                assert(all[i] == before[i]);
            }
        }
    }
}

/// Each connected file is listed once, and there are no more than asked for.
pub proof fn law_connected_files_are_listed_once(symbols: Seq<ForeignSymbol>, max: nat, n: nat)
    requires
        n <= symbols.len(),
    ensures
        file_places(symbols, max, n).len() <= max,
        forall|i: int, j: int|
            0 <= i < j < file_places(symbols, max, n).len() ==> symbols[#[trigger] file_places(
                symbols,
                max,
                n,
            )[i]].path@ != symbols[#[trigger] file_places(symbols, max, n)[j]].path@,
    decreases n,
{
    if n > 0 {
        law_connected_files_are_listed_once(symbols, max, (n - 1) as nat);
        let before = file_places(symbols, max, (n - 1) as nat);
        let all = file_places(symbols, max, n);
        assert forall|i: int, j: int| 0 <= i < j < all.len() implies symbols[#[trigger] all[i]].path@
            != symbols[#[trigger] all[j]].path@ by {
            assert(all[i] == before[i]);
            if j < before.len() {
                assert(all[j] == before[j]);
            } else {
                assert(symbols[before[i]].path@ != symbols[n - 1].path@);
            }
        }
    }
}

/// The paths of some symbols.
pub open spec fn paths_of(symbols: Seq<ForeignSymbol>) -> Set<Seq<char>> {
    Seq::new(symbols.len(), |i: int| symbols[i].path@).to_set()
}

/// Where there is room for all, every file that one of the symbols is in is listed.
pub proof fn law_every_connected_file_is_listed(symbols: Seq<ForeignSymbol>, max: nat, n: nat)
    requires
        n <= symbols.len(),
        paths_of(symbols).len() <= max,
    ensures
        forall|at: int|
            0 <= at < n ==> #[trigger] file_is_among(symbols, file_places(symbols, max, n), at),
        forall|i: int|
            0 <= i < file_places(symbols, max, n).len() ==> 0 <= #[trigger] file_places(
                symbols,
                max,
                n,
            )[i] < n,
    decreases n,
{
    if n > 0 {
        law_every_connected_file_is_listed(symbols, max, (n - 1) as nat);
        law_connected_files_are_listed_once(symbols, max, (n - 1) as nat);
        let before = file_places(symbols, max, (n - 1) as nat);
        let all = file_places(symbols, max, n);
        let last = symbols[n - 1].path@;
        if before.len() >= max && !file_is_among(symbols, before, n - 1) {
            let paths = Seq::new(symbols.len(), |i: int| symbols[i].path@);
            let listed = Seq::new(before.len(), |i: int| symbols[before[i]].path@);
            assert(listed.no_duplicates()) by {
                assert forall|i: int, j: int|
                    0 <= i < listed.len() && 0 <= j < listed.len() && i != j implies listed[i]
                    != listed[j] by {
                    if i < j {
                        assert(symbols[before[i]].path@ != symbols[before[j]].path@);
                    } else {
                        assert(symbols[before[j]].path@ != symbols[before[i]].path@);
                    }
                }
            }
            listed.unique_seq_to_set();
            assert(paths[n - 1] == last);
            assert(listed.to_set().subset_of(paths.to_set().remove(last))) by {
                assert forall|path: Seq<char>| #[trigger]
                    listed.to_set().contains(path) implies paths.to_set().remove(last).contains(
                    path,
                ) by {
                    let i = choose|i: int| 0 <= i < listed.len() && listed[i] == path;
                    assert(symbols[before[i]].path@ != last);
                    assert(paths[before[i]] == path);
                }
            }
            vstd::seq_lib::seq_to_set_is_finite(paths);
            vstd::set_lib::lemma_len_subset(listed.to_set(), paths.to_set().remove(last));
        }
        assert forall|at: int| 0 <= at < n implies #[trigger] file_is_among(symbols, all, at) by {
            if file_is_among(symbols, before, at) {
                let i = choose|i: int|
                    0 <= i < before.len() && symbols[#[trigger] before[i]].path@
                        == symbols[at].path@;
                assert(all[i] == before[i]);
            } else {
                assert(at == n - 1);
                assert(all[before.len() as int] == n - 1);
            }
        }
    }
}

/// Whether some symbols are those with the given identifiers, by the files that they
/// are in.
pub open spec fn are_found(
    symbols: Seq<ForeignSymbol>,
    ids: Seq<Seq<u8>>,
    path_of: spec_fn(Seq<u8>) -> Seq<char>,
) -> bool {
    &&& forall|i: int|
        0 <= i < symbols.len() ==> exists|j: int|
            0 <= j < ids.len() && path_of(#[trigger] ids[j]) == (#[trigger] symbols[i]).path@
    &&& forall|j: int|
        0 <= j < ids.len() ==> exists|i: int|
            0 <= i < symbols.len() && (#[trigger] symbols[i]).path@ == path_of(#[trigger] ids[j])
}

/// Whether a file is among those that are listed as connected.
pub open spec fn lists_file(listed: Seq<JsonView>, name: Seq<char>, path: Seq<char>) -> bool {
    exists|i: int| 0 <= i < listed.len() && (#[trigger] listed[i]).text_field(name) == Some(path)
}

/// The field under which a connected file is listed.
pub open spec fn path_field(incoming: bool) -> Seq<char> {
    if incoming {
        "file"@
    } else {
        "module"@
    }
}

proof fn lemma_crossing_ends(edges: Seq<SymbolEdge>, own: Seq<Seq<u8>>, incoming: bool)
    ensures
        forall|far: Seq<u8>| #[trigger]
            crossing_ends(edges, own, incoming).contains(far) <==> exists|i: int|
                0 <= i < edges.len() && #[trigger] crossing(edges[i], own, incoming) == Some(far),
    decreases edges.len(),
{
    let ends = crossing_ends(edges, own, incoming);
    if edges.len() > 0 {
        let fewer = edges.drop_last();
        lemma_crossing_ends(fewer, own, incoming);
        let before = crossing_ends(fewer, own, incoming);
        let n = edges.len() - 1;
        assert forall|far: Seq<u8>| #[trigger] ends.contains(far) <==> exists|i: int|
            0 <= i < edges.len() && #[trigger] crossing(edges[i], own, incoming) == Some(far) by {
            if ends.contains(far) {
                if before.contains(far) {
                    let i = choose|i: int|
                        0 <= i < fewer.len() && #[trigger] crossing(fewer[i], own, incoming)
                            == Some(far);
                    assert(crossing(edges[i], own, incoming) == Some(far));
                } else {
                    let k = choose|k: int| 0 <= k < ends.len() && ends[k] == far;
                    assert(k >= before.len() || before[k] == far);
                    assert(crossing(edges[n], own, incoming) == Some(far));
                }
            }
            if exists|i: int|
                0 <= i < edges.len() && #[trigger] crossing(edges[i], own, incoming) == Some(
                    far,
                ) {
                let i = choose|i: int|
                    0 <= i < edges.len() && #[trigger] crossing(edges[i], own, incoming) == Some(
                        far,
                    );
                if i < n {
                    assert(crossing(fewer[i], own, incoming) == Some(far));
                    assert(before.contains(far));
                }
                if before.contains(far) {
                    let k = choose|k: int| 0 <= k < before.len() && before[k] == far;
                    assert(ends[k] == far);
                } else {
                    assert(ends[before.len() as int] == far);
                }
            }
        }
    }
}

proof fn lemma_lists_file(
    symbols: Seq<ForeignSymbol>,
    ids: Seq<Seq<u8>>,
    path_of: spec_fn(Seq<u8>) -> Seq<char>,
    incoming: bool,
    max: nat,
    path: Seq<char>,
)
    requires
        are_found(symbols, ids, path_of),
        paths_of(symbols).len() <= max,
    ensures
        lists_file(connected_view(symbols, incoming, max), path_field(incoming), path)
            <==> exists|j: int| 0 <= j < ids.len() && path_of(#[trigger] ids[j]) == path,
{
    let places = file_places(symbols, max, symbols.len());
    let listed = connected_view(symbols, incoming, max);
    let name = path_field(incoming);
    law_every_connected_file_is_listed(symbols, max, symbols.len());
    assert forall|i: int| 0 <= i < listed.len() implies (#[trigger] listed[i]).text_field(name)
        == Some(symbols[places[i]].path@) by {
        reveal_strlit("file");
        reveal_strlit("import");
        reveal_strlit("module");
        reveal_strlit("imported_name");
        reveal_strlit("kind");
        assert("file"@.len() != "import"@.len());
        assert("module"@.len() != "imported_name"@.len());
        assert("module"@.len() != "kind"@.len());
        assert(listed[i] == foreign_view(symbols[places[i]], incoming));
    }
    if lists_file(listed, name, path) {
        let i = choose|i: int|
            0 <= i < listed.len() && (#[trigger] listed[i]).text_field(name) == Some(path);
        assert(symbols[places[i]].path@ == path);
    }
    if exists|j: int| 0 <= j < ids.len() && path_of(#[trigger] ids[j]) == path {
        let j = choose|j: int| 0 <= j < ids.len() && path_of(#[trigger] ids[j]) == path;
        let at = choose|at: int|
            0 <= at < symbols.len() && (#[trigger] symbols[at]).path@ == path_of(ids[j]);
        assert(file_is_among(symbols, places, at));
        let i = choose|i: int|
            0 <= i < places.len() && symbols[#[trigger] places[i]].path@ == symbols[at].path@;
        assert(listed[i].text_field(name) == Some(path));
    }
}

proof fn lemma_same_edge_crosses_both_ways(
    path_of: spec_fn(Seq<u8>) -> Seq<char>,
    near: Seq<char>,
    near_own: Seq<Seq<u8>>,
    near_edges: Seq<SymbolEdge>,
    far: Seq<char>,
    far_own: Seq<Seq<u8>>,
    far_edges: Seq<SymbolEdge>,
    incoming: bool,
    outgoing: bool,
    j: int,
)
    requires
        near != far,
        outgoing == !incoming,
        forall|id: Seq<u8>| #[trigger] near_own.contains(id) <==> path_of(id) == near,
        forall|id: Seq<u8>| #[trigger] far_own.contains(id) <==> path_of(id) == far,
        forall|edge: SymbolEdge| #[trigger]
            near_edges.contains(edge) && path_of(edge.source@) == (if incoming {
                far
            } else {
                near
            }) && path_of(edge.target@) == (if incoming {
                near
            } else {
                far
            }) ==> far_edges.contains(edge),
        0 <= j < crossing_ends(near_edges, near_own, incoming).len(),
        path_of(crossing_ends(near_edges, near_own, incoming)[j]) == far,
    ensures
        exists|m: int|
            0 <= m < crossing_ends(far_edges, far_own, outgoing).len() && path_of(
                #[trigger] crossing_ends(far_edges, far_own, outgoing)[m],
            ) == near,
{
    let ends = crossing_ends(near_edges, near_own, incoming);
    let others = crossing_ends(far_edges, far_own, outgoing);
    lemma_crossing_ends(near_edges, near_own, incoming);
    lemma_crossing_ends(far_edges, far_own, outgoing);
    assert(ends.contains(ends[j]));
    let i = choose|i: int|
        0 <= i < near_edges.len() && #[trigger] crossing(near_edges[i], near_own, incoming)
            == Some(ends[j]);
    let edge = near_edges[i];
    let own_end = if incoming {
        edge.target@
    } else {
        edge.source@
    };
    assert(near_own.contains(own_end));
    assert(near_edges.contains(edge));
    assert(far_edges.contains(edge));
    let k = choose|k: int| 0 <= k < far_edges.len() && far_edges[k] == edge;
    assert(far_own.contains(ends[j]) && !far_own.contains(own_end));
    assert(crossing(far_edges[k], far_own, outgoing) == Some(own_end));
    assert(others.contains(own_end));
    let m = choose|m: int| 0 <= m < others.len() && others[m] == own_end;
    assert(path_of(others[m]) == near);
}

proof fn lemma_own_file_is_not_connected(
    path_of: spec_fn(Seq<u8>) -> Seq<char>,
    path: Seq<char>,
    own: Seq<Seq<u8>>,
    edges: Seq<SymbolEdge>,
    incoming: bool,
)
    requires
        forall|id: Seq<u8>| #[trigger] own.contains(id) <==> path_of(id) == path,
    ensures
        forall|j: int|
            0 <= j < crossing_ends(edges, own, incoming).len() ==> path_of(
                #[trigger] crossing_ends(edges, own, incoming)[j],
            ) != path,
{
    law_own_symbols_are_not_connected(edges, own, incoming);
    let ends = crossing_ends(edges, own, incoming);
    assert forall|j: int| 0 <= j < ends.len() implies path_of(#[trigger] ends[j]) != path by {
        assert(!own.contains(ends[j]));
    }
}

/// One file lists another as a dependency over symbols exactly where the other lists it
/// as a dependent, and neither lists itself. The symbols of a file are those with its
/// path, both files see the same edges from the one to the other, and there is room for
/// all connected files.
#[verifier::spinoff_prover]
pub proof fn law_dependencies_and_dependents_agree(
    path_of: spec_fn(Seq<u8>) -> Seq<char>,
    user: Seq<char>,
    user_own: Seq<Seq<u8>>,
    user_edges: Seq<SymbolEdge>,
    user_symbols: Seq<ForeignSymbol>,
    user_max: nat,
    used: Seq<char>,
    used_own: Seq<Seq<u8>>,
    used_edges: Seq<SymbolEdge>,
    used_symbols: Seq<ForeignSymbol>,
    used_max: nat,
)
    requires
        user != used,
        forall|id: Seq<u8>| #[trigger] user_own.contains(id) <==> path_of(id) == user,
        forall|id: Seq<u8>| #[trigger] used_own.contains(id) <==> path_of(id) == used,
        forall|edge: SymbolEdge|
            path_of(edge.source@) == user && path_of(edge.target@) == used ==> (
            #[trigger] user_edges.contains(edge) <==> used_edges.contains(edge)),
        are_found(user_symbols, crossing_ends(user_edges, user_own, false), path_of),
        are_found(used_symbols, crossing_ends(used_edges, used_own, true), path_of),
        paths_of(user_symbols).len() <= user_max,
        paths_of(used_symbols).len() <= used_max,
    ensures
        lists_file(connected_view(user_symbols, false, user_max), "module"@, used) <==> lists_file(
            connected_view(used_symbols, true, used_max),
            "file"@,
            user,
        ),
        !lists_file(connected_view(user_symbols, false, user_max), "module"@, user),
        !lists_file(connected_view(used_symbols, true, used_max), "file"@, used),
{
    let targets = crossing_ends(user_edges, user_own, false);
    let sources = crossing_ends(used_edges, used_own, true);
    lemma_lists_file(user_symbols, targets, path_of, false, user_max, used);
    lemma_lists_file(user_symbols, targets, path_of, false, user_max, user);
    lemma_lists_file(used_symbols, sources, path_of, true, used_max, user);
    lemma_lists_file(used_symbols, sources, path_of, true, used_max, used);
    lemma_own_file_is_not_connected(path_of, user, user_own, user_edges, false);
    lemma_own_file_is_not_connected(path_of, used, used_own, used_edges, true);
    if exists|j: int| 0 <= j < targets.len() && path_of(#[trigger] targets[j]) == used {
        let j = choose|j: int| 0 <= j < targets.len() && path_of(#[trigger] targets[j]) == used;
        lemma_same_edge_crosses_both_ways(
            path_of,
            user,
            user_own,
            user_edges,
            used,
            used_own,
            used_edges,
            false,
            true,
            j,
        );
    }
    if exists|j: int| 0 <= j < sources.len() && path_of(#[trigger] sources[j]) == user {
        let j = choose|j: int| 0 <= j < sources.len() && path_of(#[trigger] sources[j]) == user;
        assert forall|edge: SymbolEdge| #[trigger]
            used_edges.contains(edge) && path_of(edge.source@) == user && path_of(edge.target@)
                == used implies user_edges.contains(edge) by {
            assert(user_edges.contains(edge) <==> used_edges.contains(edge));
        }
        lemma_same_edge_crosses_both_ways(
            path_of,
            used,
            used_own,
            used_edges,
            user,
            user_own,
            user_edges,
            true,
            false,
            j,
        );
    }
}

/// A clean path is not absolute.
pub proof fn law_clean_paths_are_relative(path: Seq<char>)
    ensures
        stored_path(path).len() > 0 ==> stored_path(path)[0] != '/',
{
    lemma_without_root(without_here(path));
}

proof fn lemma_without_root(path: Seq<char>)
    ensures
        without_root(path).len() > 0 ==> without_root(path)[0] != '/',
    decreases path.len(),
{
    if path.len() >= 1 && path[0] == '/' {
        lemma_without_root(path.skip(1));
    }
}

/// A file that imports another is listed under its own path, with what it imports; in order,
/// as many as asked for and a hundred at most. All of them are counted.
pub proof fn law_each_dependent_is_listed(
    file: Seq<char>,
    rows: Seq<DependentRow>,
    limit: nat,
)
    requires
        rows.len() <= u64::MAX,
    ensures
        ({
            let body = JsonView::Object(dependents_fields(file, rows, limit));
            &&& body.text_field("file"@) == Some(file)
            &&& body.unsigned_field("total_dependents"@) == Some(rows.len() as u64)
            &&& body.field("dependents"@) matches Some(JsonView::Array(listed)) && {
                &&& listed.len() <= limit && listed.len() <= 100 && listed.len() <= rows.len()
                &&& listed.len() == limit || listed.len() == 100 || listed.len() == rows.len()
                &&& forall|i: int|
                    0 <= i < listed.len() ==> (#[trigger] listed[i]).text_field("file"@) == Some(
                        rows[i].file@,
                    ) && listed[i].text_field("import"@) == Some(rows[i].module@)
            }
        }),
{
    reveal_strlit("file");
    reveal_strlit("total_dependents");
    reveal_strlit("dependents");
    reveal_strlit("import");
    assert("file"@.len() != "total_dependents"@.len());
    assert("file"@.len() != "dependents"@.len());
    assert("total_dependents"@.len() != "dependents"@.len());
    assert("file"@.len() != "import"@.len());
    let body = JsonView::Object(dependents_fields(file, rows, limit));
    let listed = Seq::new(listed_count(rows.len(), limit), |i: int| dependent_view(rows[i]));
    assert(body.field("dependents"@) == Some(JsonView::Array(listed)));
    assert forall|i: int| 0 <= i < listed.len() implies (#[trigger] listed[i]).text_field("file"@)
        == Some(rows[i].file@) && listed[i].text_field("import"@) == Some(rows[i].module@) by {
        assert(listed[i] == dependent_view(rows[i]));
    }
}

/// What a file imports is listed import by import, each with its module, name and kind; in
/// order, as many as asked for and a hundred at most. All of them are counted.
pub proof fn law_each_dependency_is_listed(
    file: Seq<char>,
    file_id: Seq<char>,
    rows: Seq<ImportRow>,
    limit: nat,
)
    requires
        rows.len() <= u64::MAX,
    ensures
        ({
            let body = JsonView::Object(dependencies_fields(file, file_id, rows, limit));
            &&& body.text_field("file"@) == Some(file)
            &&& body.text_field("file_id"@) == Some(file_id)
            &&& body.unsigned_field("total_dependencies"@) == Some(rows.len() as u64)
            &&& body.field("dependencies"@) matches Some(JsonView::Array(listed)) && {
                &&& listed.len() <= limit && listed.len() <= 100 && listed.len() <= rows.len()
                &&& listed.len() == limit || listed.len() == 100 || listed.len() == rows.len()
                &&& forall|i: int|
                    0 <= i < listed.len() ==> (#[trigger] listed[i]).text_field("module"@) == Some(
                        rows[i].module@,
                    ) && listed[i].text_field("imported_name"@) == Some(rows[i].imported_name@)
                        && listed[i].text_field("kind"@) == Some(rows[i].kind@)
            }
        }),
{
    reveal_strlit("file");
    reveal_strlit("file_id");
    reveal_strlit("total_dependencies");
    reveal_strlit("dependencies");
    reveal_strlit("module");
    reveal_strlit("imported_name");
    reveal_strlit("kind");
    assert("file"@.len() != "file_id"@.len());
    assert("file"@.len() != "total_dependencies"@.len());
    assert("file"@.len() != "dependencies"@.len());
    assert("file_id"@.len() != "total_dependencies"@.len());
    assert("file_id"@.len() != "dependencies"@.len());
    assert("total_dependencies"@.len() != "dependencies"@.len());
    assert("module"@.len() != "imported_name"@.len());
    assert("module"@.len() != "kind"@.len());
    assert("imported_name"@.len() != "kind"@.len());
    let body = JsonView::Object(dependencies_fields(file, file_id, rows, limit));
    let listed = Seq::new(listed_count(rows.len(), limit), |i: int| import_view(rows[i]));
    assert(body.field("dependencies"@) == Some(JsonView::Array(listed)));
    assert forall|i: int| 0 <= i < listed.len() implies (#[trigger] listed[i]).text_field(
        "module"@,
    ) == Some(rows[i].module@) && listed[i].text_field("imported_name"@) == Some(
        rows[i].imported_name@,
    ) && listed[i].text_field("kind"@) == Some(rows[i].kind@) by {
        assert(listed[i] == import_view(rows[i]));
    }
}

/// Whether an edge leads from one symbol to another, or the other way round where what comes
/// in is looked at.
pub open spec fn leads(edge: SymbolEdge, near: Seq<u8>, far: Seq<u8>, incoming: bool) -> bool {
    if incoming {
        edge.source@ == far && edge.target@ == near
    } else {
        edge.source@ == near && edge.target@ == far
    }
}

/// Whether an edge connects one of a file's own symbols with a symbol.
pub open spec fn is_connected(
    edges: Seq<SymbolEdge>,
    own: Seq<Seq<u8>>,
    far: Seq<u8>,
    incoming: bool,
) -> bool {
    exists|e: int, o: int|
        0 <= e < edges.len() && 0 <= o < own.len() && leads(
            #[trigger] edges[e],
            #[trigger] own[o],
            far,
            incoming,
        )
}

/// The connected symbols are exactly the symbols of other files that an edge connects with
/// one of the file's own, in the direction that is asked for.
pub proof fn law_connected_symbols_are_at_the_ends_of_edges(
    edges: Seq<SymbolEdge>,
    own: Seq<Seq<u8>>,
    far: Seq<u8>,
    incoming: bool,
)
    ensures
        crossing_ends(edges, own, incoming).contains(far) <==> !own.contains(far) && is_connected(
            edges,
            own,
            far,
            incoming,
        ),
    decreases edges.len(),
{
    let ends = crossing_ends(edges, own, incoming);
    if edges.len() > 0 {
        let rest = edges.drop_last();
        let last = edges.last();
        let before = crossing_ends(rest, own, incoming);
        law_connected_symbols_are_at_the_ends_of_edges(rest, own, far, incoming);
        let near = if incoming {
            last.target@
        } else {
            last.source@
        };
        if ends.contains(far) {
            if before.contains(far) {
                let (e, o) = choose|e: int, o: int|
                    0 <= e < rest.len() && 0 <= o < own.len() && leads(
                        #[trigger] rest[e],
                        #[trigger] own[o],
                        far,
                        incoming,
                    );
                assert(leads(edges[e], own[o], far, incoming));
            } else {
                assert(crossing(last, own, incoming) == Some(far));
                let o = choose|o: int| 0 <= o < own.len() && own[o] == near;
                assert(leads(edges[edges.len() - 1], own[o], far, incoming));
            }
        }
        if !own.contains(far) && is_connected(edges, own, far, incoming) {
            let (e, o) = choose|e: int, o: int|
                0 <= e < edges.len() && 0 <= o < own.len() && leads(
                    #[trigger] edges[e],
                    #[trigger] own[o],
                    far,
                    incoming,
                );
            if e < rest.len() {
                assert(leads(rest[e], own[o], far, incoming));
                assert(before.contains(far));
                let k = choose|k: int| 0 <= k < before.len() && before[k] == far;
                assert(ends[k] == far);
            } else {
                assert(own.contains(own[o]));
                assert(crossing(last, own, incoming) == Some(far));
                if before.contains(far) {
                    let k = choose|k: int| 0 <= k < before.len() && before[k] == far;
                    assert(ends[k] == far);
                } else {
                    assert(ends[before.len() as int] == far);
                }
            }
        }
    } else {
        assert(!ends.contains(far));
    }
}

proof fn lemma_file_places_are_first(symbols: Seq<ForeignSymbol>, max: nat, n: nat)
    requires
        n <= symbols.len(),
    ensures
        ({
            let places = file_places(symbols, max, n);
            &&& forall|i: int| 0 <= i < places.len() ==> 0 <= #[trigger] places[i] < n
            &&& forall|i: int, j: int|
                0 <= i < j < places.len() ==> #[trigger] places[i] < #[trigger] places[j]
            &&& places.len() < max ==> forall|at: int|
                0 <= at < n ==> #[trigger] file_is_among(symbols, places, at)
            &&& forall|i: int, at: int|
                0 <= i < places.len() && 0 <= at < places[i] ==> (
                #[trigger] symbols[at]).path@ != symbols[#[trigger] places[i]].path@
        }),
    decreases n,
{
    if n > 0 {
        lemma_file_places_are_first(symbols, max, (n - 1) as nat);
        let before = file_places(symbols, max, (n - 1) as nat);
        let places = file_places(symbols, max, n);
        assert forall|i: int| 0 <= i < places.len() implies 0 <= #[trigger] places[i] < n by {
            if i < before.len() {
                assert(places[i] == before[i]);
            }
        }
        assert forall|i: int, j: int| 0 <= i < j < places.len() implies #[trigger] places[i]
            < #[trigger] places[j] by {
            assert(places[i] == before[i]);
            if j < before.len() {
                assert(places[j] == before[j]);
            }
        }
        if places.len() < max {
            assert forall|at: int| 0 <= at < n implies #[trigger] file_is_among(
                symbols,
                places,
                at,
            ) by {
                if file_is_among(symbols, before, at) {
                    let i = choose|i: int|
                        0 <= i < before.len() && symbols[#[trigger] before[i]].path@
                            == symbols[at].path@;
                    assert(places[i] == before[i]);
                } else {
                    assert(at == n - 1);
                    assert(places[before.len() as int] == n - 1);
                }
            }
        }
        assert forall|i: int, at: int|
            0 <= i < places.len() && 0 <= at < places[i] implies (#[trigger] symbols[at]).path@
            != symbols[#[trigger] places[i]].path@ by {
            if i < before.len() {
                assert(places[i] == before[i]);
            } else {
                assert(before.len() < max && !file_is_among(symbols, before, n - 1));
                assert(file_is_among(symbols, before, at));
                let k = choose|k: int|
                    0 <= k < before.len() && symbols[#[trigger] before[k]].path@
                        == symbols[at].path@;
                assert(symbols[before[k]].path@ != symbols[n - 1].path@);
            }
        }
    }
}

/// Connected files are listed in the order in which they come up first, each under its path
/// and with the name of the symbol that came up, as far as there is room.
pub proof fn law_connected_files_are_told(
    symbols: Seq<ForeignSymbol>,
    incoming: bool,
    max: nat,
)
    ensures
        ({
            let listed = connected_view(symbols, incoming, max);
            let places = file_places(symbols, max, symbols.len());
            &&& listed.len() == places.len()
            &&& forall|i: int|
                0 <= i < listed.len() ==> 0 <= places[i] < symbols.len() && (
                #[trigger] listed[i]).text_field(path_field(incoming)) == Some(
                    symbols[places[i]].path@,
                ) && (!incoming ==> listed[i].text_field("imported_name"@) == Some(
                    symbols[places[i]].name@,
                ))
            &&& forall|i: int, j: int|
                0 <= i < j < places.len() ==> #[trigger] places[i] < #[trigger] places[j]
            &&& forall|i: int, at: int|
                0 <= i < places.len() && 0 <= at < places[i] ==> (
                #[trigger] symbols[at]).path@ != symbols[#[trigger] places[i]].path@
            &&& listed.len() < max ==> forall|at: int|
                0 <= at < symbols.len() ==> lists_file(
                    listed,
                    path_field(incoming),
                    (#[trigger] symbols[at]).path@,
                )
        }),
{
    reveal_strlit("file");
    reveal_strlit("import");
    reveal_strlit("module");
    reveal_strlit("imported_name");
    reveal_strlit("kind");
    assert("file"@.len() != "import"@.len());
    assert("module"@.len() != "imported_name"@.len());
    assert("module"@.len() != "kind"@.len());
    assert("imported_name"@.len() != "kind"@.len());
    lemma_file_places_are_first(symbols, max, symbols.len());
    let listed = connected_view(symbols, incoming, max);
    let places = file_places(symbols, max, symbols.len());
    assert forall|i: int| 0 <= i < listed.len() implies 0 <= places[i] < symbols.len() && (
    #[trigger] listed[i]).text_field(path_field(incoming)) == Some(symbols[places[i]].path@) && (
    !incoming ==> listed[i].text_field("imported_name"@) == Some(symbols[places[i]].name@)) by {
        assert(listed[i] == foreign_view(symbols[places[i]], incoming));
    }
    if listed.len() < max {
        assert forall|at: int| 0 <= at < symbols.len() implies lists_file(
            listed,
            path_field(incoming),
            (#[trigger] symbols[at]).path@,
        ) by {
            assert(file_is_among(symbols, places, at));
            let i = choose|i: int|
                0 <= i < places.len() && symbols[#[trigger] places[i]].path@ == symbols[at].path@;
            assert(listed[i].text_field(path_field(incoming)) == Some(symbols[at].path@));
        }
    }
}

/// What may be added over symbols and what there is over imports make up the limit, unless
/// there is more over imports already.
pub proof fn law_room_is_what_the_limit_leaves(
    limit: nat,
    body: JsonView,
    total_name: Seq<char>,
    used: u64,
)
    requires
        body.unsigned_field(total_name) == Some(used),
    ensures
        used <= limit ==> used + room_left(limit, body, total_name) == limit,
        used > limit ==> room_left(limit, body, total_name) == 0,
{
}

/// Each side is answered with its own body: one side alone, or both under their names; and
/// the answer is an error where a side that is asked for could not be had.
pub proof fn law_sides_are_not_mixed_up(outgoing: Json, incoming: Json, error: String)
    ensures
        structural_view(DependencySide::Incoming, Ok(outgoing), Ok(incoming)) == incoming@,
        structural_view(DependencySide::Outgoing, Ok(outgoing), Ok(incoming)) == outgoing@,
        structural_view(DependencySide::Both, Ok(outgoing), Ok(incoming)).field("outgoing"@)
            == Some(outgoing@),
        structural_view(DependencySide::Both, Ok(outgoing), Ok(incoming)).field("incoming"@)
            == Some(incoming@),
        structural_view(DependencySide::Both, Err(error), Ok(incoming)).field("incoming"@) == Some(
            incoming@,
        ),
        side_failed(DependencySide::Both, Err(error), Ok(incoming)),
        side_failed(DependencySide::Both, Ok(outgoing), Err(error)),
        !side_failed(DependencySide::Both, Ok(outgoing), Ok(incoming)),
        !side_failed(DependencySide::Incoming, Err(error), Ok(incoming)),
        side_failed(DependencySide::Incoming, Ok(outgoing), Err(error)),
        !side_failed(DependencySide::Outgoing, Ok(outgoing), Err(error)),
        side_failed(DependencySide::Outgoing, Err(error), Ok(incoming)),
{
    reveal_strlit("outgoing");
    reveal_strlit("incoming");
    assert("outgoing"@[0] != "incoming"@[0]);
}

/// A path is stored as its own end, and as it is where it starts with neither a slash nor a
/// reference to the current directory.
pub proof fn law_stored_path_is_the_end_of_the_path(path: Seq<char>)
    ensures
        stored_path(path).is_suffix_of(path),
        !(path.len() >= 1 && path[0] == '/') && !(path.len() >= 2 && path[0] == '.' && path[1]
            == '/') ==> stored_path(path) == path,
{
    lemma_without_here_is_an_end(path);
    lemma_without_root_is_an_end(without_here(path));
    let (middle, end) = (without_here(path), stored_path(path));
    assert(path.subrange(path.len() - end.len(), path.len() as int) =~= end) by {
        assert(middle =~= path.subrange(path.len() - middle.len(), path.len() as int));
        assert(end =~= middle.subrange(middle.len() - end.len(), middle.len() as int));
    }
}

proof fn lemma_without_here_is_an_end(path: Seq<char>)
    ensures
        without_here(path).is_suffix_of(path),
    decreases path.len(),
{
    let end = without_here(path);
    if path.len() >= 2 && path[0] == '.' && path[1] == '/' {
        let rest = path.skip(2);
        lemma_without_here_is_an_end(rest);
        assert(end =~= rest.subrange(rest.len() - end.len(), rest.len() as int));
    }
    assert(path.subrange(path.len() - end.len(), path.len() as int) =~= end);
}

proof fn lemma_without_root_is_an_end(path: Seq<char>)
    ensures
        without_root(path).is_suffix_of(path),
    decreases path.len(),
{
    let end = without_root(path);
    if path.len() >= 1 && path[0] == '/' {
        let rest = path.skip(1);
        lemma_without_root_is_an_end(rest);
        assert(end =~= rest.subrange(rest.len() - end.len(), rest.len() as int));
    }
    assert(path.subrange(path.len() - end.len(), path.len() as int) =~= end);
}

/// A request for file dependencies is accepted exactly where it names a file, and the
/// direction and the analysis are known or not given.
pub proof fn law_readable_dependency_requests_are_accepted(args: JsonView)
    ensures
        file_deps_refusal(args) is None <==> text_of(args, "file_path"@).len() > 0 && (text_of(
            args,
            "direction"@,
        ).len() == 0 || text_of(args, "direction"@) == "incoming"@ || text_of(args, "direction"@)
            == "outgoing"@ || text_of(args, "direction"@) == "both"@) && (text_of(
            args,
            "analysis"@,
        ).len() == 0 || text_of(args, "analysis"@) == "manifest"@ || text_of(args, "analysis"@)
            == "structural"@),
        named_side("incoming"@) == Some(DependencySide::Incoming),
        named_side("outgoing"@) == Some(DependencySide::Outgoing),
        named_side("both"@) == Some(DependencySide::Both),
        named_side(Seq::empty()) == Some(DependencySide::Outgoing),
{
    reveal_strlit("incoming");
    reveal_strlit("both");
    reveal_strlit("outgoing");
    assert("incoming"@.len() != "both"@.len());
    assert("incoming"@[0] != "outgoing"@[0]);
    assert("both"@.len() != "outgoing"@.len());
}

/// A file is used exactly where the store has it; else the file or the failure is told.
pub proof fn law_unknown_files_are_told(lookup: Result<bool, String>, file_path: Seq<char>)
    ensures
        file_lookup_message(lookup, file_path) is None <==> lookup == Ok::<bool, String>(true),
        lookup == Ok::<bool, String>(false) ==> (file_lookup_message(lookup, file_path) matches
            Some(message) && file_path.is_suffix_of(message)),
        lookup matches Err(e) ==> (file_lookup_message(lookup, file_path) matches Some(message)
            && e@.is_suffix_of(message)),
{
    if let Some(message) = file_lookup_message(lookup, file_path) {
        match lookup {
            Ok(_) => {
                assert(message.subrange(message.len() - file_path.len(), message.len() as int)
                    =~= file_path);
            },
            Err(e) => {
                assert(message.subrange(message.len() - e@.len(), message.len() as int) =~= e@);
            },
        }
    }
}

/// A side is answered where the store has what it rests on, with all that the store has; a
/// failure of the store is told.
pub proof fn law_sides_are_answered(
    file: Seq<char>,
    file_id: Seq<char>,
    imports: Result<Vec<ImportRow>, String>,
    dependents: Result<Vec<DependentRow>, String>,
    limit: nat,
    outgoing: Result<Json, String>,
    incoming: Result<Json, String>,
)
    requires
        dependencies_reply(file, file_id, imports, limit, outgoing),
        dependents_reply(file, dependents, limit, incoming),
    ensures
        outgoing is Ok <==> imports is Ok,
        incoming is Ok <==> dependents is Ok,
        imports matches Err(e) ==> (outgoing matches Err(message) && e@.is_suffix_of(message@)),
        dependents matches Err(e) ==> (incoming matches Err(message) && e@.is_suffix_of(message@)),
        imports matches Ok(rows) ==> (outgoing matches Ok(body) && body@.text_field("file"@)
            == Some(file) && body@.text_field("file_id"@) == Some(file_id) && body@.unsigned_field(
            "total_dependencies"@,
        ) == Some(rows@.len() as u64)),
        dependents matches Ok(rows) ==> (incoming matches Ok(body) && body@.text_field("file"@)
            == Some(file) && body@.unsigned_field("total_dependents"@) == Some(
            rows@.len() as u64,
        )),
{
    reveal_strlit("file");
    reveal_strlit("file_id");
    reveal_strlit("total_dependencies");
    reveal_strlit("dependencies");
    reveal_strlit("total_dependents");
    reveal_strlit("dependents");
    assert("file"@.len() != "file_id"@.len());
    assert("file"@.len() != "total_dependencies"@.len());
    assert("file"@.len() != "dependencies"@.len());
    assert("file_id"@.len() != "total_dependencies"@.len());
    assert("file_id"@.len() != "dependencies"@.len());
    assert("total_dependencies"@.len() != "dependencies"@.len());
    assert("file"@.len() != "total_dependents"@.len());
    assert("file"@.len() != "dependents"@.len());
    assert("total_dependents"@.len() != "dependents"@.len());
    if let (Err(e), Err(message)) = (imports, outgoing) {
        assert(message@.subrange(message@.len() - e@.len(), message@.len() as int) =~= e@);
    }
    if let (Err(e), Err(message)) = (dependents, incoming) {
        assert(message@.subrange(message@.len() - e@.len(), message@.len() as int) =~= e@);
    }
}

/// Both sides that rest on what is stored are answered under their names, with how far the
/// answer reaches; a side that could not be had is empty.
pub proof fn law_stored_sides_are_told(
    outgoing: Json,
    incoming: JsonView,
    analysis: JsonView,
    error: String,
    name: Seq<char>,
)
    ensures
        manifest_both(outgoing@, incoming, analysis).field("outgoing"@) == Some(outgoing@),
        manifest_both(outgoing@, incoming, analysis).field("incoming"@) == Some(incoming),
        manifest_both(outgoing@, incoming, analysis).field("analysis"@) == Some(analysis),
        side_or_empty(Ok(outgoing)) == outgoing@,
        side_or_empty(Err(error)).field(name) is None,
{
    reveal_strlit("incoming");
    reveal_strlit("outgoing");
    reveal_strlit("analysis");
    assert("incoming"@[0] != "outgoing"@[0]);
    assert("incoming"@[0] != "analysis"@[0]);
    assert("outgoing"@[0] != "analysis"@[0]);
}

/// Files that were analysed for a request are counted in what is said of it.
pub proof fn law_analysed_files_are_counted(built_files: nat)
    ensures
        built_files > 0 ==> crate::text::holds_text(
            structural_summary_of(built_files),
            decimal(built_files),
        ),
        built_files == 0 ==> structural_summary_of(built_files) == "Full index available"@,
{
    crate::text::law_text_holds_its_parts(
        "Lazy-built "@,
        decimal(built_files),
        " files (structural mode)"@,
    );
}

} // verus!
