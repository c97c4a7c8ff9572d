//! Proxy records and the CSV proxy-list builder. Reading the list from a
//! file or URL is the caller's business; the parsing of the fetched lines
//! into proxy records lives here.

use vstd::prelude::*;
use vstd::string::StringExecFns;
use crate::strutil::{spec_split, split_on, strs_view};

verus! {

/// The meaning of one CSV column.
#[derive(PartialEq, Eq, Structural, Clone, Copy, Debug, Hash)]
pub enum ProxyField {
    Host,
    Port,
    Username,
    Password,
}

impl Default for ProxyField {
    /// The default column meaning.
    fn default() -> (r: ProxyField)
        ensures
            r == ProxyField::Host,
    {
        ProxyField::Host
    }
}

/// One proxy record.
pub struct SimpleProxy {
    pub host: String,
    pub port: String,
    pub user: String,
    pub password: String,
}

/// Mathematical view of a `SimpleProxy`.
pub struct SimpleProxyModel {
    pub host: Seq<char>,
    pub port: Seq<char>,
    pub user: Seq<char>,
    pub password: Seq<char>,
}

impl DeepView for SimpleProxy {
    type V = SimpleProxyModel;

    open spec fn deep_view(&self) -> SimpleProxyModel {
        SimpleProxyModel {
            host: self.host@,
            port: self.port@,
            user: self.user@,
            password: self.password@,
        }
    }
}

impl SimpleProxy {
    /// The proxy's HTTP address, `http://host:port`.
    pub fn get_address(&self) -> (r: String)
        ensures
            r@ == "http://"@ + self.host@ + ":"@ + self.port@,
    {
        let mut s: String = "http://".to_owned();
        s.append(self.host.as_str());
        s.append(":");
        s.append(self.port.as_str());
        s
    }

    /// An exact copy.
    pub fn dup(&self) -> (r: SimpleProxy)
        ensures
            r.deep_view() == self.deep_view(),
    {
        SimpleProxy {
            host: self.host.clone(),
            port: self.port.clone(),
            user: self.user.clone(),
            password: self.password.clone(),
        }
    }
}

/// The column positions of the four proxy fields in a column layout:
/// the first occurrence of each, when all four occur.
pub open spec fn spec_positions(fields: Seq<ProxyField>) -> Option<
    (int, int, int, int),
> {
    if (exists|i: int| 0 <= i < fields.len() && fields[i] == ProxyField::Host) && (
    exists|i: int| 0 <= i < fields.len() && fields[i] == ProxyField::Port) && (exists|
        i: int,
    | 0 <= i < fields.len() && fields[i] == ProxyField::Username) && (exists|i: int|
        0 <= i < fields.len() && fields[i] == ProxyField::Password) {
        Option::Some(
            (
                first_at(fields, ProxyField::Host),
                first_at(fields, ProxyField::Port),
                first_at(fields, ProxyField::Username),
                first_at(fields, ProxyField::Password),
            ),
        )
    } else {
        Option::None
    }
}

/// The first position of `f` in a column layout.
pub open spec fn first_at(fields: Seq<ProxyField>, f: ProxyField) -> int {
    choose|i: int|
        0 <= i < fields.len() && fields[i] == f && (forall|j: int|
            0 <= j < i ==> fields[j] != f)
}

/// Finds the first position of each proxy field in the column layout, or
/// `None` when one of the four does not occur.
pub fn field_positions(fields: &[ProxyField; 4]) -> (r: Option<
    (usize, usize, usize, usize),
>)
    ensures
        match r {
            Option::Some(p) => spec_positions(fields@) == Option::Some(
                (p.0 as int, p.1 as int, p.2 as int, p.3 as int),
            ),
            Option::None => spec_positions(fields@) == Option::<
                (int, int, int, int),
            >::None,
        },
{
    let hp = find_field(fields, ProxyField::Host);
    let pp = find_field(fields, ProxyField::Port);
    let up = find_field(fields, ProxyField::Username);
    let wp = find_field(fields, ProxyField::Password);
    match (hp, pp, up, wp) {
        (Option::Some(a), Option::Some(b), Option::Some(c), Option::Some(d)) => Some(
            (a, b, c, d),
        ),
        _ => None,
    }
}

/// Finds the first position of one field.
fn find_field(fields: &[ProxyField; 4], f: ProxyField) -> (r: Option<usize>)
    ensures
        match r {
            Option::Some(i) => i < 4 && fields@[i as int] == f && (forall|j: int|
                0 <= j < i ==> fields@[j] != f) && first_at(fields@, f) == i && (exists|
                k: int,
            | 0 <= k < fields@.len() && fields@[k] == f),
            Option::None => forall|j: int| 0 <= j < fields@.len() ==> fields@[j] != f,
        },
{
    let mut i: usize = 0;
    while i < 4
        invariant
            fields@.len() == 4,
            0 <= i <= 4,
            forall|j: int| 0 <= j < i ==> fields@[j] != f,
        decreases 4 - i,
    {
        if fields[i] == f {
            proof {
                assert(fields@[i as int] == f);
                let ii = i as int;
                assert(0 <= ii < fields@.len() && fields@[ii] == f && (forall|j: int|
                    0 <= j < ii ==> fields@[j] != f));
            }
            return Some(i);
        }
        i = i + 1;
    }
    None
}

/// What one CSV line parses to under the given separator and column
/// positions: the four columns, or `None` when the line is too short.
pub open spec fn spec_proxy_line(
    line: Seq<char>,
    sep: Seq<char>,
    hp: int,
    pp: int,
    up: int,
    wp: int,
) -> Option<SimpleProxyModel> {
    let parts = spec_split(line, sep);
    if hp < parts.len() && pp < parts.len() && up < parts.len() && wp < parts.len() {
        Option::Some(
            SimpleProxyModel {
                host: parts[hp],
                port: parts[pp],
                user: parts[up],
                password: parts[wp],
            },
        )
    } else {
        Option::None
    }
}

/// Parses one CSV line into a proxy record.
pub fn parse_proxy_line(
    line: &str,
    sep: &str,
    hp: usize,
    pp: usize,
    up: usize,
    wp: usize,
) -> (r: Option<SimpleProxy>)
    requires
        sep@.len() > 0,
    ensures
        match r {
            Option::Some(p) => spec_proxy_line(
                line@,
                sep@,
                hp as int,
                pp as int,
                up as int,
                wp as int,
            ) == Option::Some(p.deep_view()),
            Option::None => spec_proxy_line(
                line@,
                sep@,
                hp as int,
                pp as int,
                up as int,
                wp as int,
            ) == Option::<SimpleProxyModel>::None,
        },
{
    let parts = split_on(line, sep);
    let n = parts.len();
    proof {
        assert(strs_view(parts@).len() == parts@.len());
    }
    if hp < n && pp < n && up < n && wp < n {
        proof {
            assert(strs_view(parts@)[hp as int] == parts@[hp as int]@);
            assert(strs_view(parts@)[pp as int] == parts@[pp as int]@);
            assert(strs_view(parts@)[up as int] == parts@[up as int]@);
            assert(strs_view(parts@)[wp as int] == parts@[wp as int]@);
        }
        Some(
            SimpleProxy {
                host: parts[hp].clone(),
                port: parts[pp].clone(),
                user: parts[up].clone(),
                password: parts[wp].clone(),
            },
        )
    } else {
        None
    }
}

/// What a list of CSV lines parses to: the records of the lines that have
/// all four columns, in order; shorter lines are skipped.
pub open spec fn spec_proxies(
    lines: Seq<Seq<char>>,
    sep: Seq<char>,
    hp: int,
    pp: int,
    up: int,
    wp: int,
) -> Seq<SimpleProxyModel>
    decreases lines.len(),
{
    if lines.len() == 0 {
        Seq::empty()
    } else {
        let pre = spec_proxies(lines.drop_last(), sep, hp, pp, up, wp);
        match spec_proxy_line(lines.last(), sep, hp, pp, up, wp) {
            Option::Some(p) => pre.push(p),
            Option::None => pre,
        }
    }
}

/// Parses fetched CSV lines into proxy records, skipping lines that lack a
/// column.
pub fn parse_proxies(
    lines: &Vec<String>,
    sep: &str,
    hp: usize,
    pp: usize,
    up: usize,
    wp: usize,
) -> (r: Vec<SimpleProxy>)
    requires
        sep@.len() > 0,
    ensures
        r.deep_view() == spec_proxies(
            lines.deep_view(),
            sep@,
            hp as int,
            pp as int,
            up as int,
            wp as int,
        ),
{
    let ghost lm = lines.deep_view();
    let mut out: Vec<SimpleProxy> = Vec::new();
    let n = lines.len();
    let mut i: usize = 0;
    proof {
        assert(lm.subrange(0, 0) =~= Seq::<Seq<char>>::empty());
        assert(out.deep_view() =~= spec_proxies(
            lm.subrange(0, 0),
            sep@,
            hp as int,
            pp as int,
            up as int,
            wp as int,
        ));
    }
    while i < n
        invariant
            sep@.len() > 0,
            lm == lines.deep_view(),
            n == lines@.len(),
            n == lm.len(),
            0 <= i <= n,
            out.deep_view() == spec_proxies(
                lm.subrange(0, i as int),
                sep@,
                hp as int,
                pp as int,
                up as int,
                wp as int,
            ),
        decreases n - i,
    {
        let ghost pre = out.deep_view();
        proof {
            assert(lm.subrange(0, i + 1).drop_last() =~= lm.subrange(0, i as int));
            assert(lm.subrange(0, i + 1).last() == lm[i as int]);
            assert(lm[i as int] == lines@[i as int]@);
        }
        match parse_proxy_line(lines[i].as_str(), sep, hp, pp, up, wp) {
            Option::Some(p) => {
                let ghost pm = p.deep_view();
                out.push(p);
                proof {
                    assert(out.deep_view() =~= pre.push(pm));
                }
            },
            Option::None => {},
        }
        i = i + 1;
    }
    proof {
        assert(lm.subrange(0, n as int) =~= lm);
    }
    out
}

/// Builds a proxy list from CSV text: where the text comes from (a file or
/// a download) is the caller's business.
pub struct CSVProxyListBuilder {
    pub source: String,
    pub fields: [ProxyField; 4],
    pub separator: String,
}

impl Default for CSVProxyListBuilder {
    /// The conventional source path, column order and separator.
    fn default() -> (r: CSVProxyListBuilder)
        ensures
            r.source@ == "./config/proxies.csv"@,
            r.separator@ == ","@,
            r.fields@ == seq![
                ProxyField::Host,
                ProxyField::Port,
                ProxyField::Username,
                ProxyField::Password,
            ],
    {
        let r = CSVProxyListBuilder {
            source: "./config/proxies.csv".to_owned(),
            fields: [
                ProxyField::Host,
                ProxyField::Port,
                ProxyField::Username,
                ProxyField::Password,
            ],
            separator: ",".to_owned(),
        };
        proof {
            assert(r.fields@ =~= seq![
                ProxyField::Host,
                ProxyField::Port,
                ProxyField::Username,
                ProxyField::Password,
            ]);
        }
        r
    }
}

impl CSVProxyListBuilder {
    /// Names the file or URL the list is read from.
    pub fn set_source(&mut self, file_or_url: &str)
        ensures
            final(self).source@ == file_or_url@,
            final(self).fields == old(self).fields,
            final(self).separator == old(self).separator,
    {
        self.source = file_or_url.to_owned();
    }

    /// Names the column separator.
    pub fn set_separator(&mut self, separator: &str)
        ensures
            final(self).separator@ == separator@,
            final(self).fields == old(self).fields,
            final(self).source == old(self).source,
    {
        self.separator = separator.to_owned();
    }

    /// Names the meaning of each of the four columns.
    pub fn set_columns(&mut self, columns: [ProxyField; 4])
        ensures
            final(self).fields == columns,
            final(self).source == old(self).source,
            final(self).separator == old(self).separator,
    {
        self.fields = columns;
    }

    /// Parses fetched CSV text lines with this builder's separator and
    /// column layout. `None` when a column meaning is missing from the
    /// layout.
    pub fn parse(&self, lines: &Vec<String>) -> (r: Option<Vec<SimpleProxy>>)
        requires
            self.separator@.len() > 0,
        ensures
            match r {
                Option::Some(v) => match spec_positions(self.fields@) {
                    Option::Some(p) => v.deep_view() == spec_proxies(
                        lines.deep_view(),
                        self.separator@,
                        p.0,
                        p.1,
                        p.2,
                        p.3,
                    ),
                    Option::None => false,
                },
                Option::None => spec_positions(self.fields@) == Option::<
                    (int, int, int, int),
                >::None,
            },
    {
        match field_positions(&self.fields) {
            Option::Some(p) => Some(
                parse_proxies(lines, self.separator.as_str(), p.0, p.1, p.2, p.3),
            ),
            Option::None => None,
        }
    }
}

} // verus!
