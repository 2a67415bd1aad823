//! Comics: their metadata, and the queries, orders and pages by which a
//! store of comics is asked.

use vstd::prelude::*;
use crate::text::clone_strings;
use crate::text::texts;
use crate::task::Timestamp;

verus! {

/// The metadata of a comic as mathematics.
pub struct ComicView {
    pub id: i64,
    pub title: Seq<char>,
    pub author: Seq<char>,
    pub labels: Seq<Seq<char>>,
    pub pages: i16,
    pub url: Seq<char>,
    pub source: Seq<char>,
    pub uploader: Seq<char>,
    pub category: Seq<char>,
    pub language: Seq<char>,
    pub score: i16,
    pub created_at: Timestamp,
    pub updated_at: Timestamp,
}

/// The metadata of a comic without any content.
pub open spec fn blank_comic() -> ComicView {
    ComicView {
        id: 0,
        title: Seq::empty(),
        author: Seq::empty(),
        labels: Seq::empty(),
        pages: 0,
        url: Seq::empty(),
        source: Seq::empty(),
        uploader: Seq::empty(),
        category: Seq::empty(),
        language: Seq::empty(),
        score: 0,
        created_at: Timestamp { seconds: 0, nanos: 0 },
        updated_at: Timestamp { seconds: 0, nanos: 0 },
    }
}

/// The index of the first label at or after `from` that equals `target`, or
/// the length of the list when none does.
pub open spec fn label_from(labels: Seq<Seq<char>>, target: Seq<char>, from: int) -> int
    decreases labels.len() - from,
{
    if from < 0 || from >= labels.len() {
        labels.len() as int
    } else if labels[from] == target {
        from
    } else {
        label_from(labels, target, from + 1)
    }
}

/// Whether one of the labels equals `target`.
pub open spec fn has_label(labels: Seq<Seq<char>>, target: Seq<char>) -> bool {
    label_from(labels, target, 0) < labels.len()
}

/// The labels without the first of them that equals `target`.
pub open spec fn without_label(labels: Seq<Seq<char>>, target: Seq<char>) -> Seq<Seq<char>> {
    if has_label(labels, target) {
        labels.remove(label_from(labels, target, 0))
    } else {
        labels
    }
}

/// The metadata of a comic.
#[derive(Debug)]
pub struct ComicMetadata {
    /// The key in the database.
    pub id: i64,
    pub title: String,
    pub author: String,
    pub labels: Vec<String>,
    /// The number of pages.
    pub pages: i16,
    pub url: String,
    /// The site that the comic comes from.
    pub source: String,
    pub uploader: String,
    pub category: String,
    pub language: String,
    pub score: i16,
    pub created_at: Timestamp,
    pub updated_at: Timestamp,
}

impl View for ComicMetadata {
    type V = ComicView;

    open spec fn view(&self) -> ComicView {
        ComicView {
            id: self.id,
            title: self.title@,
            author: self.author@,
            labels: texts(self.labels@),
            pages: self.pages,
            url: self.url@,
            source: self.source@,
            uploader: self.uploader@,
            category: self.category@,
            language: self.language@,
            score: self.score,
            created_at: self.created_at,
            updated_at: self.updated_at,
        }
    }
}

impl Default for ComicMetadata {
    fn default() -> (r: Self)
        ensures
            r@ == blank_comic(),
    {
        let r = ComicMetadata {
            id: 0,
            title: String::new(),
            author: String::new(),
            labels: Vec::new(),
            pages: 0,
            url: String::new(),
            source: String::new(),
            uploader: String::new(),
            category: String::new(),
            language: String::new(),
            score: 0,
            created_at: Timestamp { seconds: 0, nanos: 0 },
            updated_at: Timestamp { seconds: 0, nanos: 0 },
        };
        assert(texts(r.labels@) =~= Seq::<Seq<char>>::empty());
        r
    }
}

impl Clone for ComicMetadata {
    fn clone(&self) -> (r: Self)
        ensures
            r@ == self@,
    {
        ComicMetadata {
            id: self.id,
            title: self.title.clone(),
            author: self.author.clone(),
            labels: clone_strings(&self.labels),
            pages: self.pages,
            url: self.url.clone(),
            source: self.source.clone(),
            uploader: self.uploader.clone(),
            category: self.category.clone(),
            language: self.language.clone(),
            score: self.score,
            created_at: self.created_at,
            updated_at: self.updated_at,
        }
    }
}

impl ComicMetadata {
    /// The metadata made of the given parts, with the times at their start.
    pub fn new(
        id: i64,
        name: &str,
        author: &str,
        labels: Vec<String>,
        pages: i16,
        url: &str,
        source: &str,
        uploader: &str,
        category: &str,
        language: &str,
        score: i16,
    ) -> (r: Self)
        ensures
            r@ == (ComicView {
                id,
                title: name@,
                author: author@,
                labels: texts(labels@),
                pages,
                url: url@,
                source: source@,
                uploader: uploader@,
                category: category@,
                language: language@,
                score,
                ..blank_comic()
            }),
    {
        ComicMetadata {
            id,
            title: name.to_owned(),
            author: author.to_owned(),
            labels,
            pages,
            url: url.to_owned(),
            source: source.to_owned(),
            uploader: uploader.to_owned(),
            category: category.to_owned(),
            language: language.to_owned(),
            score,
            created_at: Timestamp { seconds: 0, nanos: 0 },
            updated_at: Timestamp { seconds: 0, nanos: 0 },
        }
    }

    /// Gives the comic another address.
    pub fn update_url(&mut self, new_url: &str)
        ensures
            final(self)@ == (ComicView { url: new_url@, ..old(self)@ }),
    {
        self.url = new_url.to_owned();
    }

    /// Adds a label at the end.
    pub fn add_label(&mut self, new_label: &str)
        ensures
            final(self)@ == (ComicView {
                labels: old(self)@.labels.push(new_label@),
                ..old(self)@
            }),
    {
        let ghost before = texts(self.labels@);
        self.labels.push(new_label.to_owned());
        assert(texts(self.labels@) =~= before.push(new_label@));
    }

    /// Removes the first label that equals `target_label`, and says whether
    /// there was one.
    pub fn remove_label(&mut self, target_label: &str) -> (r: bool)
        ensures
            r == has_label(old(self)@.labels, target_label@),
            final(self)@ == (ComicView {
                labels: without_label(old(self)@.labels, target_label@),
                ..old(self)@
            }),
    {
        let target = target_label.to_owned();
        let ghost before = texts(self.labels@);
        let mut index: usize = 0;
        while index < self.labels.len()
            invariant
                index <= self.labels.len(),
                self@ == old(self)@,
                before == texts(self.labels@),
                target@ == target_label@,
                label_from(before, target@, 0) == label_from(before, target@, index as int),
            decreases self.labels.len() - index,
        {
            if self.labels[index] == target {
                self.labels.remove(index);
                assert(texts(self.labels@) =~= before.remove(index as int));
                return true;
            }
            index += 1;
        }
        false
    }

    /// Gives the comic another score.
    pub fn set_score(&mut self, score: i16)
        ensures
            final(self)@ == (ComicView { score, ..old(self)@ }),
    {
        self.score = score
    }
}

/// Which comics a query asks for. A condition that is absent leaves every
/// comic in.
#[derive(Debug)]
pub struct ComicQuery {
    pub id_in: Option<Vec<i64>>,
    pub title_in: Option<Vec<String>>,
    pub author_in: Option<Vec<String>>,
    pub labels_in: Option<Vec<String>>,
    pub pages_gt: Option<i16>,
    pub pages_lt: Option<i16>,
    pub source_in: Option<Vec<String>>,
    pub uploader_in: Option<Vec<String>>,
    pub category_in: Option<Vec<String>>,
    pub language_in: Option<Vec<String>>,
    pub score_gt: Option<i16>,
    pub score_lt: Option<i16>,
    pub create_gt: Option<Timestamp>,
    pub create_lt: Option<Timestamp>,
    pub update_gt: Option<Timestamp>,
    pub update_lt: Option<Timestamp>,
}

impl ComicQuery {
    /// Whether the query has no condition.
    pub open spec fn unconditional(&self) -> bool {
        &&& self.id_in is None
        &&& self.title_in is None
        &&& self.author_in is None
        &&& self.labels_in is None
        &&& self.pages_gt is None
        &&& self.pages_lt is None
        &&& self.source_in is None
        &&& self.uploader_in is None
        &&& self.category_in is None
        &&& self.language_in is None
        &&& self.score_gt is None
        &&& self.score_lt is None
        &&& self.create_gt is None
        &&& self.create_lt is None
        &&& self.update_gt is None
        &&& self.update_lt is None
    }
}

impl Default for ComicQuery {
    fn default() -> (r: Self)
        ensures
            r.unconditional(),
    {
        ComicQuery {
            id_in: None,
            title_in: None,
            author_in: None,
            labels_in: None,
            pages_gt: None,
            pages_lt: None,
            source_in: None,
            uploader_in: None,
            category_in: None,
            language_in: None,
            score_gt: None,
            score_lt: None,
            create_gt: None,
            create_lt: None,
            update_gt: None,
            update_lt: None,
        }
    }
}

/// A column by which comics can be ordered.
#[derive(Debug, Clone, Copy, PartialEq, Eq, Structural)]
pub enum OrderableColumn {
    Id,
    Title,
    Author,
    Pages,
    Uploader,
    Category,
    Language,
    Score,
    CreatedAt,
    UpdatedAt,
}

/// The direction of an order.
#[derive(Debug, Clone, Copy, PartialEq, Eq, Structural)]
pub enum SortDirection {
    Asc,
    Desc,
}

/// An order: a column and a direction.
#[derive(Debug, Clone, Copy, PartialEq, Eq, Structural)]
pub struct ComicOrder {
    pub by: OrderableColumn,
    pub direction: SortDirection,
}

/// Which page of a result is asked for; pages count from 1.
#[derive(Debug, Clone, Copy, PartialEq, Eq, Structural)]
pub struct PageParams {
    pub page: i64,
    pub page_size: i64,
}

impl Default for PageParams {
    fn default() -> (r: Self)
        ensures
            r == (PageParams { page: 1, page_size: 50 }),
    {
        Self { page: 1, page_size: 50 }
    }
}

impl PageParams {
    /// The number of rows that stand before the page.
    pub open spec fn rows_before(&self) -> int {
        (self.page - 1) * self.page_size
    }

    /// The number of rows that stand before the page, when it fits in an
    /// `i64`.
    pub fn offset(&self) -> (r: Option<i64>)
        ensures
            r == if i64::MIN <= self.rows_before() <= i64::MAX {
                Some(self.rows_before() as i64)
            } else {
                None
            },
    {
        match self.page.checked_sub(1) {
            Some(before) => before.checked_mul(self.page_size),
            None => {
                proof {
                    lemma_far_product(self.page_size as int);
                }
                if self.page_size == 0 {
                    Some(0)
                } else {
                    None
                }
            },
        }
    }
}

/// The product of the number below the least `i64` with anything that fits
/// in an `i64` is 0 or lies outside the `i64`.
proof fn lemma_far_product(size: int)
    requires
        i64::MIN <= size <= i64::MAX,
    ensures
        size == 0 || !(i64::MIN <= (i64::MIN - 1) * size <= i64::MAX),
{
}

/// One page of a result.
#[derive(Debug)]
pub struct PagedResult<T> {
    pub data: Vec<T>,
    pub total: i64,
    pub page: i64,
    pub page_size: i64,
}

/// A column whose values can be counted.
#[derive(Debug, Clone, Copy, PartialEq, Eq, Structural)]
pub enum CountableColumn {
    Author,
    Labels,
    Source,
    Uploader,
    Category,
    Language,
    Score,
}

/// How often one value of a column occurs.
#[derive(Debug)]
pub struct ColumnDistributionResult {
    pub name: String,
    pub count: u64,
}

} // verus!
