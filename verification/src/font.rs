//! Choosing a font: where fonts come from, which face a filter selects, the
//! families and faces a font database offers, and the text listings of
//! them.
//!
//! The font database itself is read from disk by the caller; the library
//! works on `FaceRecord`s, the plain facts of each face that the choice
//! depends on, in the database's order.
use vstd::prelude::*;
use vstd::string::*;
use crate::order::{sort_unique, strictly_sorted, views_of};
use crate::text::str_equals;

verus! {

/// Font source, either from a file or the system's installed fonts.
pub enum Source {
    /// A font loaded from the file at this path.
    File(String),
    /// The system's installed fonts.
    System,
}

/// Font filter used to specify the source and name of a font when querying
/// the font database.
pub struct Filter {
    pub source: Source,
    pub name: Option<String>,
}

/// What the library reads of one face of a font database: its PostScript
/// name and the names of its families.
pub struct FaceRecord {
    pub post_script_name: String,
    pub families: Vec<String>,
}

/// A family to ask the font database for: one of the generic families or
/// a family by name.
pub enum FamilyChoice {
    SansSerif,
    Serif,
    Monospace,
    Name(String),
}

/// The mathematical value of a `FamilyChoice`.
pub enum FamilyView {
    SansSerif,
    Serif,
    Monospace,
    Name(Seq<char>),
}

impl View for FamilyChoice {
    type V = FamilyView;

    open spec fn view(&self) -> FamilyView {
        match self {
            FamilyChoice::SansSerif => FamilyView::SansSerif,
            FamilyChoice::Serif => FamilyView::Serif,
            FamilyChoice::Monospace => FamilyView::Monospace,
            FamilyChoice::Name(n) => FamilyView::Name(n@),
        }
    }
}

/// Which face a filter selects in a font database.
pub enum FaceChoice {
    /// The face at this position of the database.
    Face(usize),
    /// No face has the requested PostScript name: ask the database for the
    /// best match among these families, in this order of preference.
    Query(Vec<FamilyChoice>),
    /// The database holds no face at all.
    NoFaces,
}

/// How a source is shown to the user.
pub open spec fn source_text(s: Source) -> Seq<char> {
    match s {
        Source::File(path) => path@,
        Source::System => "System font"@,
    }
}

/// How a filter is shown to the user.
pub open spec fn filter_text(f: Filter) -> Seq<char> {
    match f.name {
        Some(name) => name@ + " of "@ + source_text(f.source),
        None => "Any font of "@ + source_text(f.source),
    }
}

impl Source {
    /// The text by which the source is shown: the file's path, or
    /// `System font`.
    pub fn describe(&self) -> (r: String)
        ensures
            r@ == source_text(*self),
    {
        match self {
            Source::File(path) => path.clone(),
            Source::System => String::from_str("System font"),
        }
    }
}

impl Filter {
    /// The text by which the filter is shown: `<name> of <source>`, or
    /// `Any font of <source>` when no name is set.
    pub fn describe(&self) -> (r: String)
        ensures
            r@ == filter_text(*self),
    {
        let source = self.source.describe();
        match &self.name {
            Some(name) => {
                let mut s = name.clone();
                s.append(" of ");
                s.append(source.as_str());
                s
            },
            None => {
                let mut s = String::from_str("Any font of ");
                s.append(source.as_str());
                s
            },
        }
    }
}

/// The face belongs to the family `name`, or no family is asked for.
pub open spec fn face_in_family(family: Option<String>, face: FaceRecord) -> bool {
    match family {
        Some(name) => exists|j: int|
            0 <= j < face.families@.len() && (#[trigger] face.families@[j])@ == name@,
        None => true,
    }
}

/// The PostScript names of the faces in `family`, in database order.
pub open spec fn faces_in_family(faces: Seq<FaceRecord>, family: Option<String>) -> Seq<Seq<char>>
    decreases faces.len(),
{
    if faces.len() == 0 {
        Seq::empty()
    } else {
        let rest = faces_in_family(faces.drop_last(), family);
        if face_in_family(family, faces.last()) {
            rest.push(faces.last().post_script_name@)
        } else {
            rest
        }
    }
}

/// The family names of all faces, face after face, each face's families
/// in its own order.
pub open spec fn family_list(faces: Seq<FaceRecord>) -> Seq<Seq<char>>
    decreases faces.len(),
{
    if faces.len() == 0 {
        Seq::empty()
    } else {
        family_list(faces.drop_last()) + views_of(faces.last().families@)
    }
}

/// Checks if the given face belongs to the target family; every face does
/// when no family is given.
pub fn is_target_family(family: &Option<String>, face_info: &FaceRecord) -> (r: bool)
    ensures
        r == face_in_family(*family, *face_info),
        family is None ==> r,
        *family matches Some(name) ==> (forall|j: int|
            0 <= j < face_info.families@.len() && (#[trigger] face_info.families@[j])@ == name@
                ==> r),
        r && family is Some ==> exists|j: int|
            0 <= j < face_info.families@.len() && (#[trigger] face_info.families@[j])@
                == family->0@,
{
    match family {
        Some(name) => {
            let mut j: usize = 0;
            while j < face_info.families.len()
                invariant
                    j <= face_info.families.len(),
                    *family == Some(*name),
                    forall|k: int| 0 <= k < j ==> (#[trigger] face_info.families@[k])@ != name@,
                decreases face_info.families.len() - j,
            {
                if face_info.families[j] == *name {
                    assert(face_info.families@[j as int]@ == name@);
                    return true;
                }
                j = j + 1;
            }
            false
        },
        None => true,
    }
}

/// A face belongs to a family exactly when one of its family names, at any
/// position of its list, is that family's name.
pub proof fn law_family_matches_any_listed_name(face: FaceRecord, name: String, j: int)
    ensures
        0 <= j < face.families@.len() && face.families@[j]@ == name@ ==> face_in_family(
            Some(name),
            face,
        ),
        face_in_family(Some(name), face) ==> exists|k: int|
            0 <= k < face.families@.len() && (#[trigger] face.families@[k])@ == name@,
        face_in_family(None, face),
{
}

/// A face whose families include the requested one is listed among the
/// faces of that family, whichever place the name has in its list; a face
/// without it is not.
pub proof fn law_listed_faces_have_the_family(faces: Seq<FaceRecord>, name: String, i: int, j: int)
    requires
        0 <= i < faces.len(),
        0 <= j < faces[i].families@.len(),
        faces[i].families@[j]@ == name@,
    ensures
        faces_in_family(faces, Some(name)).contains(faces[i].post_script_name@),
    decreases faces.len(),
{
    let rest = faces_in_family(faces.drop_last(), Some(name));
    if i == faces.len() - 1 {
        assert(face_in_family(Some(name), faces.last()));
        let r = faces_in_family(faces, Some(name));
        assert(r[r.len() - 1] == faces[i].post_script_name@);
    } else {
        assert(faces.drop_last()[i] == faces[i]);
        law_listed_faces_have_the_family(faces.drop_last(), name, i, j);
        let k = choose|k: int| 0 <= k < rest.len() && rest[k] == faces[i].post_script_name@;
        let r = faces_in_family(faces, Some(name));
        assert(r[k] == rest[k]);
    }
}

/// The PostScript names of the faces that match the filter's family, in
/// database order.
pub fn get_font_faces(filter: &Filter, faces: &Vec<FaceRecord>) -> (r: Vec<String>)
    ensures
        views_of(r@) == faces_in_family(faces@, filter.name),
{
    let mut out: Vec<String> = Vec::new();
    let mut i: usize = 0;
    while i < faces.len()
        invariant
            i <= faces.len(),
            views_of(out@) == faces_in_family(faces@.take(i as int), filter.name),
        decreases faces.len() - i,
    {
        assert(faces@.take(i + 1).drop_last() =~= faces@.take(i as int));
        if is_target_family(&filter.name, &faces[i]) {
            out.push(faces[i].post_script_name.clone());
        }
        assert(views_of(out@) =~= faces_in_family(faces@.take(i + 1), filter.name));
        i = i + 1;
    }
    assert(faces@.take(faces.len() as int) =~= faces@);
    out
}

fn all_family_names(faces: &Vec<FaceRecord>) -> (r: Vec<String>)
    ensures
        views_of(r@) == family_list(faces@),
{
    let mut out: Vec<String> = Vec::new();
    let mut i: usize = 0;
    while i < faces.len()
        invariant
            i <= faces.len(),
            views_of(out@) == family_list(faces@.take(i as int)),
        decreases faces.len() - i,
    {
        let fams = &faces[i].families;
        let ghost before = out@;
        let mut j: usize = 0;
        while j < fams.len()
            invariant
                j <= fams.len(),
                i < faces.len(),
                fams@ == faces@[i as int].families@,
                views_of(out@) == views_of(before) + views_of(fams@.take(j as int)),
            decreases fams.len() - j,
        {
            let ghost prev = out@;
            let item = fams[j].clone();
            assert(item@ == fams@[j as int]@);
            out.push(item);
            assert(views_of(out@) =~= views_of(prev).push(fams@[j as int]@));
            assert(views_of(fams@.take(j + 1)) =~= views_of(fams@.take(j as int)).push(fams@[j as int]@));
            assert(views_of(out@) =~= views_of(before) + views_of(fams@.take(j + 1)));
            j = j + 1;
        }
        assert(fams@.take(fams.len() as int) =~= fams@);
        assert(faces@.take(i + 1).drop_last() =~= faces@.take(i as int));
        assert(views_of(out@) =~= family_list(faces@.take(i + 1)));
        i = i + 1;
    }
    assert(faces@.take(faces.len() as int) =~= faces@);
    out
}

/// The names of all families in the database, in increasing order, each
/// once.
pub fn get_families(faces: &Vec<FaceRecord>) -> (r: Vec<String>)
    ensures
        strictly_sorted(views_of(r@)),
        forall|s: Seq<char>| views_of(r@).contains(s) <==> family_list(faces@).contains(s),
{
    let all = all_family_names(faces);
    sort_unique(&all)
}

/// Without a family to match, every face of the database is listed, in
/// database order.
pub proof fn law_every_face_without_family(faces: Seq<FaceRecord>)
    ensures
        faces_in_family(faces, None) == faces.map_values(|f: FaceRecord| f.post_script_name@),
    decreases faces.len(),
{
    if faces.len() > 0 {
        law_every_face_without_family(faces.drop_last());
        assert(faces.map_values(|f: FaceRecord| f.post_script_name@) =~= faces.drop_last().map_values(
            |f: FaceRecord| f.post_script_name@,
        ).push(faces.last().post_script_name@));
    } else {
        assert(faces.map_values(|f: FaceRecord| f.post_script_name@) =~= Seq::<Seq<char>>::empty());
    }
}

/// The lowercase form of a string, as `str::to_lowercase` computes it.
pub uninterp spec fn lowercase_of(s: Seq<char>) -> Seq<char>;

/// `str::to_lowercase`.
/// Trusted: the result is the named function `lowercase_of` of the
/// argument's characters; the Unicode case tables it applies are left
/// unstated.
#[verifier::external_body]
fn to_lowercase(s: &str) -> (r: String)
    ensures
        r@ == lowercase_of(s@),
{
    s.to_lowercase()
}

/// The families to try for a font name that no face has as its PostScript
/// name, given the name and its lowercase form.
pub open spec fn family_candidates(lowered: Seq<char>, name: Seq<char>) -> Seq<FamilyView> {
    if lowered == "sans-serif"@ {
        seq![
            FamilyView::SansSerif,
            FamilyView::Name("Noto Sans"@),
            FamilyView::Name("DejaVu Sans"@),
            FamilyView::Name("Arial"@),
            FamilyView::Name("Segoe UI"@),
        ]
    } else if lowered == "serif"@ {
        seq![
            FamilyView::Serif,
            FamilyView::Name("Noto Serif"@),
            FamilyView::Name("DejaVu Serif"@),
            FamilyView::Name("Times New Roman"@),
        ]
    } else if lowered == "monospace"@ {
        seq![
            FamilyView::Monospace,
            FamilyView::Name("Noto Sans Mono"@),
            FamilyView::Name("DejaVu Sans Mono"@),
            FamilyView::Name("Consolas"@),
            FamilyView::Name("Courier New"@),
            FamilyView::Name("Lucida Console"@),
        ]
    } else {
        seq![FamilyView::Name(name)]
    }
}

/// The values of a list of family choices.
pub open spec fn family_views(v: Seq<FamilyChoice>) -> Seq<FamilyView> {
    v.map_values(|f: FamilyChoice| f@)
}

fn named(s: &str) -> (r: FamilyChoice)
    ensures
        r@ == FamilyView::Name(s@),
{
    FamilyChoice::Name(String::from_str(s))
}

/// The families to try for `font_name`, given its lowercase form
/// `lowered`: a generic family followed by common fonts of that kind, or
/// the name itself.
pub fn family_candidates_for(lowered: &str, font_name: &str) -> (r: Vec<FamilyChoice>)
    ensures
        family_views(r@) == family_candidates(lowered@, font_name@),
{
    let mut v: Vec<FamilyChoice> = Vec::new();
    if str_equals(lowered, "sans-serif") {
        v.push(FamilyChoice::SansSerif);
        v.push(named("Noto Sans"));
        v.push(named("DejaVu Sans"));
        v.push(named("Arial"));
        v.push(named("Segoe UI"));
    } else if str_equals(lowered, "serif") {
        v.push(FamilyChoice::Serif);
        v.push(named("Noto Serif"));
        v.push(named("DejaVu Serif"));
        v.push(named("Times New Roman"));
    } else if str_equals(lowered, "monospace") {
        v.push(FamilyChoice::Monospace);
        v.push(named("Noto Sans Mono"));
        v.push(named("DejaVu Sans Mono"));
        v.push(named("Consolas"));
        v.push(named("Courier New"));
        v.push(named("Lucida Console"));
    } else {
        v.push(named(font_name));
    }
    assert(family_views(v@) =~= family_candidates(lowered@, font_name@));
    v
}

/// The families to try for `font_name` when no face has it as its
/// PostScript name: the generic family names are matched in any case.
pub fn generic_family_candidates(font_name: &str) -> (r: Vec<FamilyChoice>)
    ensures
        family_views(r@) == family_candidates(lowercase_of(font_name@), font_name@),
{
    let lowered = to_lowercase(font_name);
    family_candidates_for(lowered.as_str(), font_name)
}

/// The face that a filter's name selects: the first face whose PostScript
/// name is `name`; otherwise a query for the families the name stands for.
/// Without a name, the first face of the database.
pub fn choose_face(name: &Option<String>, faces: &Vec<FaceRecord>) -> (r: FaceChoice)
    ensures
        match (*name, r) {
            (Some(n), FaceChoice::Face(i)) => {
                &&& i < faces.len()
                &&& faces@[i as int].post_script_name@ == n@
                &&& forall|j: int| 0 <= j < i ==> (#[trigger] faces@[j]).post_script_name@ != n@
            },
            (Some(n), FaceChoice::Query(q)) => {
                &&& forall|j: int|
                    0 <= j < faces.len() ==> (#[trigger] faces@[j]).post_script_name@ != n@
                &&& family_views(q@) == family_candidates(lowercase_of(n@), n@)
            },
            (None, FaceChoice::Face(i)) => i == 0 && faces.len() > 0,
            (None, FaceChoice::NoFaces) => faces.len() == 0,
            _ => false,
        },
{
    match name {
        Some(n) => {
            let mut i: usize = 0;
            while i < faces.len()
                invariant
                    i <= faces.len(),
                    *name == Some(*n),
                    forall|j: int| 0 <= j < i ==> (#[trigger] faces@[j]).post_script_name@ != n@,
                decreases faces.len() - i,
            {
                if faces[i].post_script_name == *n {
                    assert(faces@[i as int].post_script_name@ == n@);
                    return FaceChoice::Face(i);
                }
                i = i + 1;
            }
            FaceChoice::Query(generic_family_candidates(n.as_str()))
        },
        None => {
            if faces.len() > 0 {
                FaceChoice::Face(0)
            } else {
                FaceChoice::NoFaces
            }
        },
    }
}

/// Each string on a line of its own, indented by two spaces.
pub open spec fn indented_lines(items: Seq<Seq<char>>) -> Seq<char>
    decreases items.len(),
{
    if items.len() == 0 {
        Seq::empty()
    } else {
        indented_lines(items.drop_last()) + "  "@ + items.last() + "\n"@
    }
}

/// The items listed under a heading, or a note that there are none.
pub open spec fn listing_body(items: Seq<Seq<char>>) -> Seq<char> {
    if items.len() == 0 {
        "  No fonts found.\n"@
    } else {
        indented_lines(items)
    }
}

/// The text that lists the generic and the installed font families.
pub open spec fn families_listing_text(families: Seq<Seq<char>>) -> Seq<char> {
    "Generic families:\n"@ + "  sans-serif\n"@ + "  serif\n"@ + "  monospace\n"@ + "\n"@
        + "Installed font families:\n"@ + listing_body(families)
}

/// The text that lists the faces of a font.
pub open spec fn faces_listing_text(font_name: Seq<char>, faces: Seq<Seq<char>>) -> Seq<char> {
    "Font faces for '"@ + font_name + "':\n"@ + listing_body(faces)
}

fn append_listing_body(out: &mut String, items: &Vec<String>)
    ensures
        final(out)@ == old(out)@ + listing_body(views_of(items@)),
{
    if items.len() == 0 {
        out.append("  No fonts found.\n");
        return;
    }
    let ghost start = out@;
    let mut i: usize = 0;
    while i < items.len()
        invariant
            i <= items.len(),
            out@ == start + indented_lines(views_of(items@.take(i as int))),
        decreases items.len() - i,
    {
        out.append("  ");
        out.append(items[i].as_str());
        out.append("\n");
        assert(views_of(items@.take(i + 1)).drop_last() =~= views_of(items@.take(i as int)));
        assert(out@ =~= start + indented_lines(views_of(items@.take(i + 1))));
        i = i + 1;
    }
    assert(items@.take(items.len() as int) =~= items@);
}

/// The listing of font families that `--list-fonts` prints: the generic
/// families, then each installed family on a line of its own.
pub fn font_families_listing(families: &Vec<String>) -> (r: String)
    ensures
        r@ == families_listing_text(views_of(families@)),
{
    let mut out = String::from_str("Generic families:\n");
    out.append("  sans-serif\n");
    out.append("  serif\n");
    out.append("  monospace\n");
    out.append("\n");
    out.append("Installed font families:\n");
    append_listing_body(&mut out, families);
    assert(out@ =~= families_listing_text(views_of(families@)));
    out
}

/// The listing of the faces of a font that `--list-faces` prints.
pub fn font_faces_listing(font_name: &str, faces: &Vec<String>) -> (r: String)
    ensures
        r@ == faces_listing_text(font_name@, views_of(faces@)),
{
    let mut out = String::from_str("Font faces for '");
    out.append(font_name);
    out.append("':\n");
    append_listing_body(&mut out, faces);
    assert(out@ =~= faces_listing_text(font_name@, views_of(faces@)));
    out
}

} // verus!
