use vstd::prelude::*;

verus! {

/// The texts of a list of string slices.
pub open spec fn strs(v: Seq<&str>) -> Seq<Seq<char>> {
    Seq::new(v.len(), |i: int| v[i]@)
}

/// The parts laid end to end with `sep` between each two.
pub open spec fn joined_with(parts: Seq<Seq<char>>, sep: Seq<char>) -> Seq<char>
    decreases parts.len(),
{
    if parts.len() == 0 {
        Seq::empty()
    } else if parts.len() == 1 {
        parts[0]
    } else {
        joined_with(parts.drop_last(), sep) + sep + parts.last()
    }
}

/// `parts` joined with `sep`.
pub fn join(parts: &Vec<&str>, sep: &str) -> (r: String)
    ensures
        r@ == joined_with(strs(parts@), sep@),
{
    let mut out = String::new();
    let mut i: usize = 0;
    while i < parts.len()
        invariant
            i <= parts@.len(),
            out@ == joined_with(strs(parts@).subrange(0, i as int), sep@),
        decreases parts@.len() - i,
    {
        let ghost before = out@;
        if i > 0 {
            out.append(sep);
        }
        out.append(parts[i]);
        proof {
            let s = strs(parts@);
            assert(s.subrange(0, i + 1).drop_last() =~= s.subrange(0, i as int));
            if i == 0 {
                assert(before =~= Seq::<char>::empty());
                assert(out@ =~= s.subrange(0, 1)[0]);
            }
        }
        i = i + 1;
    }
    assert(strs(parts@).subrange(0, parts@.len() as int) =~= strs(parts@));
    out
}

/// How a full-text index is defined: its analyzer, with tokenizers and filters, and its
/// scoring algorithm.
#[derive(Debug)]
pub struct TextSearchIndexConfig<'a> {
    pub analyzer_name: &'a str,
    pub tokenizers: Vec<&'a str>,
    pub filters: Vec<&'a str>,
    pub algorithm: &'a str,
    pub enable_highlights: bool,
}

impl<'a> Default for TextSearchIndexConfig<'a> {
    fn default() -> (r: Self)
        ensures
            r.analyzer_name@ == "text_analyzer"@,
            strs(r.tokenizers@) == seq!["blank"@],
            strs(r.filters@) == seq!["lowercase"@, "snowball(english)"@],
            r.algorithm@ == "BM25"@,
            r.enable_highlights,
    {
        let r = TextSearchIndexConfig {
            analyzer_name: "text_analyzer",
            tokenizers: vec!["blank"],
            filters: vec!["lowercase", "snowball(english)"],
            algorithm: "BM25",
            enable_highlights: true,
        };
        assert(strs(r.tokenizers@) =~= seq!["blank"@]);
        assert(strs(r.filters@) =~= seq!["lowercase"@, "snowball(english)"@]);
        r
    }
}

/// The statement that defines the analyzer of `c`.
pub open spec fn analyzer_query(c: TextSearchIndexConfig) -> Seq<char> {
    "DEFINE ANALYZER "@ + c.analyzer_name@ + " TOKENIZERS "@ + joined_with(strs(c.tokenizers@), ", "@) + " FILTERS "@
        + joined_with(strs(c.filters@), ", "@)
}

/// The statement that defines the index of `c` on `field` of table `table`.
pub open spec fn index_query(c: TextSearchIndexConfig, table: Seq<char>, field: Seq<char>) -> Seq<char> {
    "DEFINE INDEX idx_"@ + table + "_"@ + field + " \n            ON "@ + table + " \n            FIELDS "@ + field
        + "\n            SEARCH ANALYZER "@ + c.analyzer_name@ + " "@ + c.algorithm@ + " "@ + (if c.enable_highlights {
        "HIGHLIGHTS"@
    } else {
        ""@
    })
}

impl<'a> TextSearchIndexConfig<'a> {
    pub fn build_analyzer_query(&self) -> (r: String)
        ensures
            r@ == analyzer_query(*self),
    {
        let mut q = String::from_str("DEFINE ANALYZER ");
        q.append(self.analyzer_name);
        q.append(" TOKENIZERS ");
        let t = join(&self.tokenizers, ", ");
        q.append(t.as_str());
        q.append(" FILTERS ");
        let f = join(&self.filters, ", ");
        q.append(f.as_str());
        q
    }

    pub fn build_index_query(&self, table_id: &str, field: &str) -> (r: String)
        ensures
            r@ == index_query(*self, table_id@, field@),
    {
        let mut q = String::from_str("DEFINE INDEX idx_");
        q.append(table_id);
        q.append("_");
        q.append(field);
        q.append(" \n            ON ");
        q.append(table_id);
        q.append(" \n            FIELDS ");
        q.append(field);
        q.append("\n            SEARCH ANALYZER ");
        q.append(self.analyzer_name);
        q.append(" ");
        q.append(self.algorithm);
        q.append(" ");
        if self.enable_highlights {
            q.append("HIGHLIGHTS");
        } else {
            q.append("");
        }
        q
    }
}

} // verus!
