//! Source positions and per-file import bindings: spans, file identities,
//! module specifiers.
use vstd::prelude::*;
use vstd::string::*;

verus! {

/// Byte offsets and line/column range of a syntactic node.
#[derive(Debug, Clone, Copy, PartialEq, Eq, Structural)]
pub struct Span {
    pub start: u32,
    pub end: u32,
    pub start_line: u32,
    pub start_col: u32,
    pub end_line: u32,
    pub end_col: u32,
}

impl View for Span {
    type V = Span;

    open spec fn view(&self) -> Span {
        *self
    }
}

impl DeepView for Span {
    type V = Span;

    open spec fn deep_view(&self) -> Span {
        *self
    }
}

impl Span {
    pub fn new(
        start: u32,
        end: u32,
        start_line: u32,
        start_col: u32,
        end_line: u32,
        end_col: u32,
    ) -> (r: Self)
        ensures
            r == (Span { start, end, start_line, start_col, end_line, end_col }),
    {
        Span { start, end, start_line, start_col, end_line, end_col }
    }

    pub fn start(&self) -> (r: u32)
        ensures
            r == self.start,
    {
        self.start
    }

    pub fn end(&self) -> (r: u32)
        ensures
            r == self.end,
    {
        self.end
    }

    pub fn start_line(&self) -> (r: u32)
        ensures
            r == self.start_line,
    {
        self.start_line
    }

    pub fn start_col(&self) -> (r: u32)
        ensures
            r == self.start_col,
    {
        self.start_col
    }

    pub fn end_line(&self) -> (r: u32)
        ensures
            r == self.end_line,
    {
        self.end_line
    }

    pub fn end_col(&self) -> (r: u32)
        ensures
            r == self.end_col,
    {
        self.end_col
    }
}

/// The project-root-relative path of a canonical path: the part after the
/// root and its separator where the root is a proper prefix, else the
/// canonical path itself (an equal path becomes empty).
pub open spec fn relative_of(canonical: Seq<char>, root: Seq<char>) -> Seq<char> {
    if canonical == root {
        Seq::<char>::empty()
    } else if root.len() < canonical.len() && canonical.subrange(0, root.len() as int) == root
        && canonical[root.len() as int] == '/' {
        canonical.subrange(root.len() as int + 1, canonical.len() as int)
    } else {
        canonical
    }
}

/// A source file's identity: its canonical path and its path relative to the
/// project root.
#[derive(Debug, PartialEq, Eq, Hash)]
pub struct SourceFile {
    pub canonical_path: String,
    pub relative_path: String,
}

pub ghost struct SourceFileV {
    pub canonical_path: Seq<char>,
    pub relative_path: Seq<char>,
}

impl View for SourceFile {
    type V = SourceFileV;

    open spec fn view(&self) -> SourceFileV {
        SourceFileV { canonical_path: self.canonical_path@, relative_path: self.relative_path@ }
    }
}

impl DeepView for SourceFile {
    type V = SourceFileV;

    open spec fn deep_view(&self) -> SourceFileV {
        self.view()
    }
}

impl SourceFile {
    /// Build the identity from an already-canonicalized path, deriving the
    /// relative path from the project root.
    pub fn new(canonical_path: String, project_root: &str) -> (r: Self)
        ensures
            r@.canonical_path == canonical_path@,
            r@.relative_path == relative_of(canonical_path@, project_root@),
    {
        let relative = relative_to_root(canonical_path.as_str(), project_root);
        SourceFile { canonical_path, relative_path: relative }
    }

    /// Build the identity from both paths directly.
    pub fn new_for_test(canonical_path: String, relative_path: String) -> (r: Self)
        ensures
            r@.canonical_path == canonical_path@,
            r@.relative_path == relative_path@,
    {
        SourceFile { canonical_path, relative_path }
    }

    pub fn canonical(&self) -> (r: &str)
        ensures
            r@ == self@.canonical_path,
    {
        self.canonical_path.as_str()
    }

    pub fn relative(&self) -> (r: &str)
        ensures
            r@ == self@.relative_path,
    {
        self.relative_path.as_str()
    }

    pub fn display_path(&self) -> (r: String)
        ensures
            r@ == self@.relative_path,
    {
        self.relative_path.clone()
    }
}

/// Strip the project root (and the separator after it) off a canonical path.
pub fn relative_to_root(canonical: &str, root: &str) -> (r: String)
    ensures
        r@ == relative_of(canonical@, root@),
{
    let n: usize = canonical.unicode_len();
    let rn: usize = root.unicode_len();
    if n == rn && crate::text::str_eq(canonical, root) {
        String::new()
    } else if rn < n && crate::text::str_prefix_eq(canonical, root) && canonical.get_char(rn)
        == '/' {
        let rest = canonical.substring_char(rn + 1, n);
        proof {
            assert(canonical@ != root@);
        }
        rest.to_owned()
    } else {
        proof {
            if canonical@ == root@ {
                assert(n == rn);
            }
        }
        canonical.to_owned()
    }
}

/// The literal string in an import statement, classified as relative or
/// package-style.
#[derive(Debug)]
pub struct ModuleSpecifier(pub String);

impl View for ModuleSpecifier {
    type V = Seq<char>;

    open spec fn view(&self) -> Seq<char> {
        self.0@
    }
}

impl DeepView for ModuleSpecifier {
    type V = Seq<char>;

    open spec fn deep_view(&self) -> Seq<char> {
        self.0@
    }
}

/// A specifier is relative when it starts with `.` or `/`.
pub open spec fn specifier_is_relative(s: Seq<char>) -> bool {
    s.len() > 0 && (s[0] == '.' || s[0] == '/')
}

impl ModuleSpecifier {
    pub fn new(specifier: String) -> (r: Self)
        ensures
            r@ == specifier@,
    {
        ModuleSpecifier(specifier)
    }

    pub fn as_str(&self) -> (r: &str)
        ensures
            r@ == self@,
    {
        self.0.as_str()
    }

    pub fn is_relative(&self) -> (r: bool)
        ensures
            r == specifier_is_relative(self@),
    {
        let s = self.0.as_str();
        if s.unicode_len() == 0 {
            false
        } else {
            let c = s.get_char(0);
            c == '.' || c == '/'
        }
    }

    pub fn is_package(&self) -> (r: bool)
        ensures
            r == !specifier_is_relative(self@),
    {
        !self.is_relative()
    }
}

/// Under which name an import clause binds: a named export, the default
/// export, or the whole namespace.
#[derive(Debug, PartialEq, Eq)]
pub enum ImportedName {
    Named(String),
    Default,
    Namespace,
}

pub ghost enum ImportedNameV {
    Named(Seq<char>),
    Default,
    Namespace,
}

impl View for ImportedName {
    type V = ImportedNameV;

    open spec fn view(&self) -> ImportedNameV {
        match self {
            ImportedName::Named(name) => ImportedNameV::Named(name@),
            ImportedName::Default => ImportedNameV::Default,
            ImportedName::Namespace => ImportedNameV::Namespace,
        }
    }
}

impl DeepView for ImportedName {
    type V = ImportedNameV;

    open spec fn deep_view(&self) -> ImportedNameV {
        self.view()
    }
}

/// One import clause of a file: source specifier, imported name, local name.
#[derive(Debug)]
pub struct ImportBinding {
    pub source: ModuleSpecifier,
    pub imported_name: ImportedName,
    pub local_name: String,
}

pub ghost struct ImportBindingV {
    pub source: Seq<char>,
    pub imported_name: ImportedNameV,
    pub local_name: Seq<char>,
}

impl View for ImportBinding {
    type V = ImportBindingV;

    open spec fn view(&self) -> ImportBindingV {
        ImportBindingV {
            source: self.source@,
            imported_name: self.imported_name@,
            local_name: self.local_name@,
        }
    }
}

impl DeepView for ImportBinding {
    type V = ImportBindingV;

    open spec fn deep_view(&self) -> ImportBindingV {
        self.view()
    }
}

impl ImportBinding {
    pub fn new(source: ModuleSpecifier, imported_name: ImportedName, local_name: String) -> (r:
        Self)
        ensures
            r@ == (ImportBindingV {
                source: source@,
                imported_name: imported_name@,
                local_name: local_name@,
            }),
    {
        ImportBinding { source, imported_name, local_name }
    }

    pub fn source(&self) -> (r: &ModuleSpecifier)
        ensures
            r@ == self@.source,
    {
        &self.source
    }

    pub fn imported_name(&self) -> (r: &ImportedName)
        ensures
            r@ == self@.imported_name,
    {
        &self.imported_name
    }

    pub fn local_name(&self) -> (r: &str)
        ensures
            r@ == self@.local_name,
    {
        self.local_name.as_str()
    }
}

/// File identity plus the span of a node inside it.
#[derive(Debug)]
pub struct SourceLocation {
    pub file: SourceFile,
    pub span: Span,
}

pub ghost struct SourceLocationV {
    pub file: SourceFileV,
    pub span: Span,
}

impl View for SourceLocation {
    type V = SourceLocationV;

    open spec fn view(&self) -> SourceLocationV {
        SourceLocationV { file: self.file@, span: self.span }
    }
}

impl DeepView for SourceLocation {
    type V = SourceLocationV;

    open spec fn deep_view(&self) -> SourceLocationV {
        self.view()
    }
}

impl SourceLocation {
    pub fn new(file: SourceFile, span: Span) -> (r: Self)
        ensures
            r@ == (SourceLocationV { file: file@, span }),
    {
        SourceLocation { file, span }
    }

    pub fn file(&self) -> (r: &SourceFile)
        ensures
            r@ == self@.file,
    {
        &self.file
    }

    pub fn span(&self) -> (r: &Span)
        ensures
            *r == self@.span,
    {
        &self.span
    }
}

impl Clone for SourceFile {
    fn clone(&self) -> (r: Self)
        ensures
            r@ == self@,
    {
        SourceFile {
            canonical_path: self.canonical_path.clone(),
            relative_path: self.relative_path.clone(),
        }
    }
}

impl Clone for SourceLocation {
    fn clone(&self) -> (r: Self)
        ensures
            r@ == self@,
    {
        SourceLocation { file: self.file.clone(), span: self.span }
    }
}

impl Clone for ModuleSpecifier {
    fn clone(&self) -> (r: Self)
        ensures
            r@ == self@,
    {
        ModuleSpecifier(self.0.clone())
    }
}

impl Clone for ImportedName {
    fn clone(&self) -> (r: Self)
        ensures
            r@ == self@,
    {
        match self {
            ImportedName::Named(name) => ImportedName::Named(name.clone()),
            ImportedName::Default => ImportedName::Default,
            ImportedName::Namespace => ImportedName::Namespace,
        }
    }
}

impl Clone for ImportBinding {
    fn clone(&self) -> (r: Self)
        ensures
            r@ == self@,
    {
        ImportBinding {
            source: self.source.clone(),
            imported_name: self.imported_name.clone(),
            local_name: self.local_name.clone(),
        }
    }
}

/// The index of the last occurrence of a character, or -1.
pub open spec fn rfind_char(s: Seq<char>, c: char) -> int
    decreases s.len(),
{
    if s.len() == 0 {
        -1
    } else if s.last() == c {
        s.len() - 1
    } else {
        rfind_char(s.drop_last(), c)
    }
}

proof fn lemma_rfind_char_found(s: Seq<char>, c: char, m: int)
    requires
        0 <= m < s.len(),
        s[m] == c,
        forall|j: int| m < j < s.len() ==> s[j] != c,
    ensures
        rfind_char(s, c) == m,
    decreases s.len(),
{
    if m == s.len() - 1 {
    } else {
        assert(s.last() != c);
        let t = s.drop_last();
        lemma_rfind_char_found(t, c, m);
    }
}

proof fn lemma_rfind_char_absent(s: Seq<char>, c: char)
    requires
        forall|j: int| 0 <= j < s.len() ==> s[j] != c,
    ensures
        rfind_char(s, c) == -1,
    decreases s.len(),
{
    if s.len() > 0 {
        lemma_rfind_char_absent(s.drop_last(), c);
    }
}

/// Find the last occurrence of a character, if any.
fn rfind_char_exec(s: &str, c: char) -> (r: Option<usize>)
    ensures
        match r {
            Some(m) => m < s@.len() && rfind_char(s@, c) == m as int,
            None => rfind_char(s@, c) == -1,
        },
{
    let n: usize = s.unicode_len();
    let mut i: usize = n;
    while i > 0
        invariant
            0 <= i <= n,
            n == s@.len(),
            forall|j: int| i <= j < n ==> s@[j] != c,
        decreases i,
    {
        i = i - 1;
        if s.get_char(i) == c {
            proof {
                lemma_rfind_char_found(s@, c, i as int);
            }
            return Some(i);
        }
    }
    proof {
        lemma_rfind_char_absent(s@, c);
    }
    None
}

/// The extension of a path: the part of the last path segment after its
/// last dot, where that dot is neither the segment's first character nor
/// missing. Counted in characters.
pub open spec fn extension_of(path: Seq<char>) -> Option<Seq<char>> {
    let name = path.subrange(rfind_char(path, '/') + 1, path.len() as int);
    let dot = rfind_char(name, '.');
    if dot <= 0 {
        None
    } else {
        Some(name.subrange(dot + 1, name.len() as int))
    }
}

/// Whether the path names a file with one of the target extensions.
pub fn is_target_file(path: &str, extensions: &Vec<String>) -> (r: bool)
    ensures
        r == match extension_of(path@) {
            None => false,
            Some(e) => exists|j: int|
                0 <= j < extensions.deep_view().len() && extensions.deep_view()[j] == e,
        },
{
    let n: usize = path.unicode_len();
    let slash: usize = match rfind_char_exec(path, '/') {
        Some(m) => m + 1,
        None => 0,
    };
    let name = path.substring_char(slash, n);
    proof {
        assert(name@ =~= path@.subrange(rfind_char(path@, '/') + 1, path@.len() as int));
    }
    let dot = rfind_char_exec(name, '.');
    match dot {
        None => false,
        Some(0) => false,
        Some(d) => {
            let name_len = name.unicode_len();
            proof {
                assert(d < name@.len());
            }
            let ext = name.substring_char(d + 1, name_len);
            proof {
                assert(ext@ =~= name@.subrange(
                    rfind_char(name@, '.') + 1,
                    name@.len() as int,
                ));
            }
            let mut j: usize = 0;
            while j < extensions.len()
                invariant
                    0 <= j <= extensions.len(),
                    extensions.deep_view().len() == extensions.len(),
                    ext@ == match extension_of(path@) {
                        Some(e) => e,
                        None => ext@,
                    },
                    extension_of(path@) is Some,
                    forall|k: int| 0 <= k < j ==> extensions.deep_view()[k] != ext@,
                decreases extensions.len() - j,
            {
                if crate::text::str_eq(extensions[j].as_str(), ext) {
                    proof {
                        assert(extensions.deep_view()[j as int] == extensions@[j as int]@);
                    }
                    return true;
                }
                proof {
                    assert(extensions.deep_view()[j as int] == extensions@[j as int]@);
                }
                j = j + 1;
            }
            false
        },
    }
}

/// How many times a character occurs in a sequence.
pub open spec fn count_char(s: Seq<char>, c: char) -> int
    decreases s.len(),
{
    if s.len() == 0 {
        0
    } else {
        count_char(s.drop_last(), c) + (if s.last() == c {
            1int
        } else {
            0int
        })
    }
}

proof fn lemma_count_char_bound(s: Seq<char>, c: char)
    ensures
        0 <= count_char(s, c) <= s.len(),
    decreases s.len(),
{
    if s.len() > 0 {
        lemma_count_char_bound(s.drop_last(), c);
    }
}

proof fn lemma_rfind_char_bound(s: Seq<char>, c: char)
    ensures
        -1 <= rfind_char(s, c) < s.len(),
    decreases s.len(),
{
    if s.len() > 0 {
        lemma_rfind_char_bound(s.drop_last(), c);
    }
}

/// The 1-based line of a character offset: one more than the newlines
/// before it.
pub open spec fn line_at(s: Seq<char>, offset: int) -> int {
    1 + count_char(s.subrange(0, offset), '\n')
}

/// The 1-based column of a character offset: its distance from the last
/// newline before it.
pub open spec fn col_at(s: Seq<char>, offset: int) -> int {
    offset - rfind_char(s.subrange(0, offset), '\n')
}

/// The 1-based line and column of a character offset in the text; an offset
/// past the end yields line 1, column 1.
pub fn offset_to_line_col(source_text: &str, offset: u32) -> (r: (u32, u32))
    ensures
        offset > source_text@.len() ==> r == (1u32, 1u32),
        offset <= source_text@.len() ==> {
            &&& r.0 == line_at(source_text@, offset as int) as u32
            &&& r.1 == col_at(source_text@, offset as int) as u32
        },
{
    let n: usize = source_text.unicode_len();
    if offset as usize > n {
        return (1, 1);
    }
    let off = offset as usize;
    let mut line: u64 = 1;
    let mut col: u64 = 1;
    let mut i: usize = 0;
    proof {
        assert(source_text@.subrange(0, 0) =~= Seq::<char>::empty());
    }
    while i < off
        invariant
            0 <= i <= off <= n,
            off == offset as int,
            n == source_text@.len(),
            line == line_at(source_text@, i as int),
            col == col_at(source_text@, i as int),
            line <= 1 + i,
            col <= 1 + i,
        decreases off - i,
    {
        let c = source_text.get_char(i);
        let ghost pre = source_text@.subrange(0, i as int);
        let ghost post = source_text@.subrange(0, i + 1);
        proof {
            assert(post.drop_last() =~= pre);
            assert(post.last() == source_text@[i as int]);
            lemma_count_char_bound(pre, '\n');
            lemma_rfind_char_bound(pre, '\n');
        }
        if c == '\n' {
            line = line + 1;
            col = 1;
        } else {
            col = col + 1;
        }
        i = i + 1;
    }
    proof {
        lemma_count_char_bound(source_text@.subrange(0, off as int), '\n');
        lemma_rfind_char_bound(source_text@.subrange(0, off as int), '\n');
        assert(line <= 1 + off);
        assert(col <= off + 1);
    }
    (#[verifier::truncate] (line as u32), #[verifier::truncate] (col as u32))
}

/// Build the span of a node from its character offsets in the text.
pub fn create_span_with_position(source_text: &str, start: u32, end: u32) -> (r: Span)
    ensures
        r.start == start,
        r.end == end,
        start <= source_text@.len() ==> r.start_line == line_at(source_text@, start as int) as u32
            && r.start_col == col_at(source_text@, start as int) as u32,
        end <= source_text@.len() ==> r.end_line == line_at(source_text@, end as int) as u32
            && r.end_col == col_at(source_text@, end as int) as u32,
        start > source_text@.len() ==> r.start_line == 1 && r.start_col == 1,
        end > source_text@.len() ==> r.end_line == 1 && r.end_col == 1,
{
    let (start_line, start_col) = offset_to_line_col(source_text, start);
    let (end_line, end_col) = offset_to_line_col(source_text, end);
    Span::new(start, end, start_line, start_col, end_line, end_col)
}

} // verus!


