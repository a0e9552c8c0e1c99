//! Request and response shapes of the retrospect API, with the field rules
//! that incoming requests are held to.
use vstd::prelude::*;
use crate::string_set::StringSet;
use crate::text::owned;

verus! {

/// The longest reference URL accepted, in bytes.
pub const REFERENCE_URL_MAX_LENGTH: usize = 2048;

/// The number of bytes of a text in UTF-8.
pub open spec fn byte_len(s: Seq<char>) -> nat {
    vstd::utf8::encode_utf8(s).len()
}

/// The ways a retrospect can be run.
#[derive(Debug, Clone, Copy, PartialEq, Eq, Structural)]
pub enum RetrospectMethod {
    Kpt,
    FourL,
    FiveF,
    Pmi,
    Free,
}

/// The text a method is written as on the wire.
pub open spec fn method_wire_name(m: RetrospectMethod) -> Seq<char> {
    match m {
        RetrospectMethod::Kpt => "KPT"@,
        RetrospectMethod::FourL => "FOUR_L"@,
        RetrospectMethod::FiveF => "FIVE_F"@,
        RetrospectMethod::Pmi => "PMI"@,
        RetrospectMethod::Free => "FREE"@,
    }
}

/// The question asked at position `i` (from 0) by a method.
pub open spec fn default_question(m: RetrospectMethod, i: int) -> Seq<char> {
    match m {
        RetrospectMethod::Kpt => {
            if i == 0 { "이번 일을 통해 유지했으면 하는 문화나 방식이 있나요?"@ }
            else if i == 1 { "이번 일을 하는 중 문제점이라고 판단되었던 부분이 있나요?"@ }
            else if i == 2 { "이번 일을 겪으면서 새롭게 시도해보고 싶은 게 있나요?"@ }
            else if i == 3 { "유지할 점과 문제점을 바탕으로 다음에 실천할 행동은 무엇인가요?"@ }
            else { "팀원들에게 전하고 싶은 이야기가 있나요?"@ }
        },
        RetrospectMethod::FourL => {
            if i == 0 { "이번 일을 하면서 좋았던 순간은 언제였나요?"@ }
            else if i == 1 { "이번 일을 통해 새롭게 배운 점이 있나요?"@ }
            else if i == 2 { "이번 일을 하면서 부족했거나 아쉬웠던 점이 있나요?"@ }
            else if i == 3 { "앞으로 일할 때 바라는 점이 있나요?"@ }
            else { "팀원들에게 전하고 싶은 이야기가 있나요?"@ }
        },
        RetrospectMethod::FiveF => {
            if i == 0 { "이번 업무를 통해 새롭게 알게 된 사실이 있나요?"@ }
            else if i == 1 { "업무 중 느낀 감정은 어떠했나요?"@ }
            else if i == 2 { "업무를 진행하면서 예상하지 못했던 발견이 있었나요?"@ }
            else if i == 3 { "이번에 얻은 깨달음을 다음 업무에 어떻게 적용하고 싶나요?"@ }
            else { "함께 업무를 진행한 분들에게 전하고 싶은 피드백이 있나요?"@ }
        },
        RetrospectMethod::Pmi => {
            if i == 0 { "이번 일을 통해 긍정적인 영향을 준 문화나 방법은 무엇인가요?"@ }
            else if i == 1 { "이번 일을 통해 부정적인 영향을 끼쳤던 것은 무엇인가요?"@ }
            else if i == 2 { "이번 일을 하면서 흥미롭게 발견한 점은 무엇인가요?"@ }
            else if i == 3 { "다음에 더 발전시키고 싶은 점은 무엇인가요?"@ }
            else { "팀원들에게 전하고 싶은 이야기가 있나요?"@ }
        },
        RetrospectMethod::Free => {
            if i == 0 { "이번 프로젝트에서 가장 기억에 남는 것은 무엇인가요?"@ }
            else if i == 1 { "프로젝트를 진행하며 어떤 생각이 들었나요?"@ }
            else if i == 2 { "다음 프로젝트에서 개선하고 싶은 점은 무엇인가요?"@ }
            else if i == 3 { "팀원들에게 전하고 싶은 말이 있나요?"@ }
            else { "추가로 공유하고 싶은 의견이 있나요?"@ }
        },
    }
}

/// Every retrospect asks this many questions.
pub const QUESTIONS_PER_RETROSPECT: usize = 5;

impl RetrospectMethod {
    /// The wire name of the method.
    pub fn to_string(&self) -> (r: String)
        ensures
            r@ == method_wire_name(*self),
    {
        match self {
            RetrospectMethod::Kpt => owned("KPT"),
            RetrospectMethod::FourL => owned("FOUR_L"),
            RetrospectMethod::FiveF => owned("FIVE_F"),
            RetrospectMethod::Pmi => owned("PMI"),
            RetrospectMethod::Free => owned("FREE"),
        }
    }

    /// The method written with the given wire name, if any.
    pub fn parse(s: &str) -> (r: Option<RetrospectMethod>)
        ensures
            r matches Some(m) ==> method_wire_name(m) == s@,
            r is None ==> forall|m: RetrospectMethod| method_wire_name(m) != s@,
    {
        if crate::text::str_eq(s, "KPT") {
            Some(RetrospectMethod::Kpt)
        } else if crate::text::str_eq(s, "FOUR_L") {
            Some(RetrospectMethod::FourL)
        } else if crate::text::str_eq(s, "FIVE_F") {
            Some(RetrospectMethod::FiveF)
        } else if crate::text::str_eq(s, "PMI") {
            Some(RetrospectMethod::Pmi)
        } else if crate::text::str_eq(s, "FREE") {
            Some(RetrospectMethod::Free)
        } else {
            proof {
                assert forall|m: RetrospectMethod| method_wire_name(m) != s@ by {
                    match m {
                        RetrospectMethod::Kpt => {},
                        RetrospectMethod::FourL => {},
                        RetrospectMethod::FiveF => {},
                        RetrospectMethod::Pmi => {},
                        RetrospectMethod::Free => {},
                    }
                }
            }
            None
        }
    }

    /// The questions a retrospect of this method asks, in order.
    pub fn default_questions(&self) -> (r: Vec<&'static str>)
        ensures
            r@.len() == QUESTIONS_PER_RETROSPECT,
            forall|i: int| 0 <= i < r@.len() ==> #[trigger] r@[i]@ == default_question(*self, i),
    {
        let v = match self {
            RetrospectMethod::Kpt => vec![
                "이번 일을 통해 유지했으면 하는 문화나 방식이 있나요?",
                "이번 일을 하는 중 문제점이라고 판단되었던 부분이 있나요?",
                "이번 일을 겪으면서 새롭게 시도해보고 싶은 게 있나요?",
                "유지할 점과 문제점을 바탕으로 다음에 실천할 행동은 무엇인가요?",
                "팀원들에게 전하고 싶은 이야기가 있나요?",
            ],
            RetrospectMethod::FourL => vec![
                "이번 일을 하면서 좋았던 순간은 언제였나요?",
                "이번 일을 통해 새롭게 배운 점이 있나요?",
                "이번 일을 하면서 부족했거나 아쉬웠던 점이 있나요?",
                "앞으로 일할 때 바라는 점이 있나요?",
                "팀원들에게 전하고 싶은 이야기가 있나요?",
            ],
            RetrospectMethod::FiveF => vec![
                "이번 업무를 통해 새롭게 알게 된 사실이 있나요?",
                "업무 중 느낀 감정은 어떠했나요?",
                "업무를 진행하면서 예상하지 못했던 발견이 있었나요?",
                "이번에 얻은 깨달음을 다음 업무에 어떻게 적용하고 싶나요?",
                "함께 업무를 진행한 분들에게 전하고 싶은 피드백이 있나요?",
            ],
            RetrospectMethod::Pmi => vec![
                "이번 일을 통해 긍정적인 영향을 준 문화나 방법은 무엇인가요?",
                "이번 일을 통해 부정적인 영향을 끼쳤던 것은 무엇인가요?",
                "이번 일을 하면서 흥미롭게 발견한 점은 무엇인가요?",
                "다음에 더 발전시키고 싶은 점은 무엇인가요?",
                "팀원들에게 전하고 싶은 이야기가 있나요?",
            ],
            RetrospectMethod::Free => vec![
                "이번 프로젝트에서 가장 기억에 남는 것은 무엇인가요?",
                "프로젝트를 진행하며 어떤 생각이 들었나요?",
                "다음 프로젝트에서 개선하고 싶은 점은 무엇인가요?",
                "팀원들에게 전하고 싶은 말이 있나요?",
                "추가로 공유하고 싶은 의견이 있나요?",
            ],
        };
        proof {
            assert forall|i: int| 0 <= i < v@.len() implies #[trigger] v@[i]@ == default_question(*self, i) by {
                if i == 0 {} else if i == 1 {} else if i == 2 {} else if i == 3 {} else {}
            }
        }
        v
    }

    /// How many questions a retrospect of this method asks.
    pub fn question_count(&self) -> (r: usize)
        ensures
            r == QUESTIONS_PER_RETROSPECT,
    {
        let q = self.default_questions();
        q.len()
    }
}

/// Whether a member has only saved, submitted, or had the retrospect analysed.
#[derive(Debug, Clone, Copy, PartialEq, Eq, Structural)]
pub enum RetrospectStatus {
    Draft,
    Submitted,
    Analyzed,
}

impl RetrospectStatus {
    /// The wire name of the status.
    pub fn to_string(&self) -> (r: String)
        ensures
            r@ == (match *self {
                RetrospectStatus::Draft => "DRAFT"@,
                RetrospectStatus::Submitted => "SUBMITTED"@,
                RetrospectStatus::Analyzed => "ANALYZED"@,
            }),
    {
        match self {
            RetrospectStatus::Draft => owned("DRAFT"),
            RetrospectStatus::Submitted => owned("SUBMITTED"),
            RetrospectStatus::Analyzed => owned("ANALYZED"),
        }
    }
}

/// The period a storage listing covers.
#[derive(Debug, Clone, Copy, PartialEq, Eq, Structural)]
pub enum StorageRangeFilter {
    All,
    ThreeMonths,
    SixMonths,
    OneYear,
}

/// The wire name of a storage period.
pub open spec fn range_wire_name(f: StorageRangeFilter) -> Seq<char> {
    match f {
        StorageRangeFilter::All => "ALL"@,
        StorageRangeFilter::ThreeMonths => "3_MONTHS"@,
        StorageRangeFilter::SixMonths => "6_MONTHS"@,
        StorageRangeFilter::OneYear => "1_YEAR"@,
    }
}

impl Default for StorageRangeFilter {
    /// The whole history.
    fn default() -> (r: Self)
        ensures
            r == StorageRangeFilter::All,
    {
        StorageRangeFilter::All
    }
}

impl StorageRangeFilter {
    /// The number of days the period reaches back; `None` for the whole history.
    pub fn days(&self) -> (r: Option<i64>)
        ensures
            r == (match *self {
                StorageRangeFilter::All => None,
                StorageRangeFilter::ThreeMonths => Some(90i64),
                StorageRangeFilter::SixMonths => Some(180i64),
                StorageRangeFilter::OneYear => Some(365i64),
            }),
    {
        match self {
            StorageRangeFilter::All => None,
            StorageRangeFilter::ThreeMonths => Some(90),
            StorageRangeFilter::SixMonths => Some(180),
            StorageRangeFilter::OneYear => Some(365),
        }
    }

    /// The wire name of the period.
    pub fn to_string(&self) -> (r: String)
        ensures
            r@ == range_wire_name(*self),
    {
        match self {
            StorageRangeFilter::All => owned("ALL"),
            StorageRangeFilter::ThreeMonths => owned("3_MONTHS"),
            StorageRangeFilter::SixMonths => owned("6_MONTHS"),
            StorageRangeFilter::OneYear => owned("1_YEAR"),
        }
    }

    /// The period with the given wire name, if any.
    pub fn parse(s: &str) -> (r: Option<StorageRangeFilter>)
        ensures
            r matches Some(f) ==> range_wire_name(f) == s@,
            r is None ==> forall|f: StorageRangeFilter| range_wire_name(f) != s@,
    {
        if crate::text::str_eq(s, "ALL") {
            Some(StorageRangeFilter::All)
        } else if crate::text::str_eq(s, "3_MONTHS") {
            Some(StorageRangeFilter::ThreeMonths)
        } else if crate::text::str_eq(s, "6_MONTHS") {
            Some(StorageRangeFilter::SixMonths)
        } else if crate::text::str_eq(s, "1_YEAR") {
            Some(StorageRangeFilter::OneYear)
        } else {
            proof {
                assert forall|f: StorageRangeFilter| range_wire_name(f) != s@ by {
                    match f {
                        StorageRangeFilter::All => {},
                        StorageRangeFilter::ThreeMonths => {},
                        StorageRangeFilter::SixMonths => {},
                        StorageRangeFilter::OneYear => {},
                    }
                }
            }
            None
        }
    }
}

/// Which answers a listing of responses shows.
#[derive(Debug, Clone, Copy, PartialEq, Eq, Structural)]
pub enum ResponseCategory {
    All,
    Question1,
    Question2,
    Question3,
    Question4,
    Question5,
}

/// The wire name of a response category.
pub open spec fn category_wire_name(c: ResponseCategory) -> Seq<char> {
    match c {
        ResponseCategory::All => "ALL"@,
        ResponseCategory::Question1 => "QUESTION_1"@,
        ResponseCategory::Question2 => "QUESTION_2"@,
        ResponseCategory::Question3 => "QUESTION_3"@,
        ResponseCategory::Question4 => "QUESTION_4"@,
        ResponseCategory::Question5 => "QUESTION_5"@,
    }
}

/// The message of a refused category name.
pub open spec fn invalid_category_message(s: Seq<char>) -> Seq<char> {
    "유효하지 않은 카테고리: "@ + s
}

impl ResponseCategory {
    /// The index (from 0) of the question the category selects; `None` for all.
    pub fn question_index(&self) -> (r: Option<usize>)
        ensures
            r == (match *self {
                ResponseCategory::All => None,
                ResponseCategory::Question1 => Some(0usize),
                ResponseCategory::Question2 => Some(1usize),
                ResponseCategory::Question3 => Some(2usize),
                ResponseCategory::Question4 => Some(3usize),
                ResponseCategory::Question5 => Some(4usize),
            }),
    {
        match self {
            ResponseCategory::All => None,
            ResponseCategory::Question1 => Some(0),
            ResponseCategory::Question2 => Some(1),
            ResponseCategory::Question3 => Some(2),
            ResponseCategory::Question4 => Some(3),
            ResponseCategory::Question5 => Some(4),
        }
    }

    /// The wire name of the category.
    pub fn to_string(&self) -> (r: String)
        ensures
            r@ == category_wire_name(*self),
    {
        match self {
            ResponseCategory::All => owned("ALL"),
            ResponseCategory::Question1 => owned("QUESTION_1"),
            ResponseCategory::Question2 => owned("QUESTION_2"),
            ResponseCategory::Question3 => owned("QUESTION_3"),
            ResponseCategory::Question4 => owned("QUESTION_4"),
            ResponseCategory::Question5 => owned("QUESTION_5"),
        }
    }

    /// The category with the given wire name; otherwise the error message.
    pub fn parse(s: &str) -> (r: Result<ResponseCategory, String>)
        ensures
            r matches Ok(c) ==> category_wire_name(c) == s@,
            r matches Err(m) ==> m@ == invalid_category_message(s@)
                && forall|c: ResponseCategory| category_wire_name(c) != s@,
    {
        if crate::text::str_eq(s, "ALL") {
            Ok(ResponseCategory::All)
        } else if crate::text::str_eq(s, "QUESTION_1") {
            Ok(ResponseCategory::Question1)
        } else if crate::text::str_eq(s, "QUESTION_2") {
            Ok(ResponseCategory::Question2)
        } else if crate::text::str_eq(s, "QUESTION_3") {
            Ok(ResponseCategory::Question3)
        } else if crate::text::str_eq(s, "QUESTION_4") {
            Ok(ResponseCategory::Question4)
        } else if crate::text::str_eq(s, "QUESTION_5") {
            Ok(ResponseCategory::Question5)
        } else {
            proof {
                assert forall|c: ResponseCategory| category_wire_name(c) != s@ by {
                    match c {
                        ResponseCategory::All => {},
                        ResponseCategory::Question1 => {},
                        ResponseCategory::Question2 => {},
                        ResponseCategory::Question3 => {},
                        ResponseCategory::Question4 => {},
                        ResponseCategory::Question5 => {},
                    }
                }
            }
            Err(crate::text::join2("유효하지 않은 카테고리: ", s))
        }
    }
}

impl core::str::FromStr for ResponseCategory {
    type Err = String;

    /// The category with the given wire name, as `parse` reads it.
    fn from_str(s: &str) -> (r: Result<ResponseCategory, String>)
        ensures
            r matches Ok(c) ==> category_wire_name(c) == s@,
            r matches Err(m) ==> m@ == invalid_category_message(s@)
                && forall|c: ResponseCategory| category_wire_name(c) != s@,
    {
        ResponseCategory::parse(s)
    }
}

/// The fields of a request that broke their rules.
#[derive(Debug)]
pub struct ValidationErrors {
    fields: StringSet,
}

impl ValidationErrors {
    /// The names of the fields that broke their rules.
    pub fn field_errors(&self) -> (r: &StringSet)
        ensures
            r@ == self.failed(),
    {
        &self.fields
    }

    pub closed spec fn failed(&self) -> Set<Seq<char>> {
        self.fields@
    }
}

/// Turns the collected field names into the outcome of a validation.
pub(crate) fn outcome(fields: StringSet) -> (r: Result<(), ValidationErrors>)
    ensures
        r is Ok <==> fields@ == Set::<Seq<char>>::empty(),
        r matches Err(e) ==> e.failed() == fields@,
{
    if fields.is_empty() {
        Ok(())
    } else {
        Err(ValidationErrors { fields })
    }
}

/// Records `name` as failed when `bad` holds.
pub(crate) fn note(fields: &mut StringSet, bad: bool, name: &str)
    ensures
        final(fields)@ == (if bad { old(fields)@.insert(name@) } else { old(fields)@ }),
{
    if bad {
        fields.insert(name);
    }
}

/// The number of characters of a string.
pub(crate) fn char_count(s: &str) -> (r: usize)
    ensures
        r == s@.len(),
{
    s.unicode_len()
}

/// Request to open a retro room.
#[derive(Debug)]
pub struct RetroRoomCreateRequest {
    pub title: String,
    pub description: Option<String>,
}

/// The fields of a room-creation request that break their rules: a title of
/// 1 to 20 characters, a description of at most 50.
pub open spec fn retro_room_create_failures(title: Seq<char>, description: Option<Seq<char>>) -> Set<Seq<char>> {
    Set::new(|f: Seq<char>|
        (f == "title"@ && !(1 <= title.len() <= 20))
        || (f == "description"@ && (description matches Some(d) && d.len() > 50)))
}

impl RetroRoomCreateRequest {
    /// Checks the title and the description.
    pub fn validate(&self) -> (r: Result<(), ValidationErrors>)
        ensures
            r is Ok <==> retro_room_create_failures(self.title@, opt_view(&self.description)) == Set::<Seq<char>>::empty(),
            r matches Err(e) ==> e.failed() == retro_room_create_failures(self.title@, opt_view(&self.description)),
    {
        let mut fields = StringSet::new();
        let n = char_count(self.title.as_str());
        note(&mut fields, n < 1 || n > 20, "title");
        let long_description = match &self.description {
            Some(d) => char_count(d.as_str()) > 50,
            None => false,
        };
        note(&mut fields, long_description, "description");
        proof {
            reveal_strlit("title");
            reveal_strlit("description");
            assert(fields@ =~= retro_room_create_failures(self.title@, opt_view(&self.description)));
        }
        outcome(fields)
    }
}

/// The view of an optional string.
pub open spec fn opt_view(o: &Option<String>) -> Option<Seq<char>> {
    match o {
        Some(s) => Some(s@),
        None => None,
    }
}

/// A retro room as just created.
#[derive(Debug)]
pub struct RetroRoomCreateResponse {
    pub retro_room_id: i64,
    pub title: String,
    pub invite_code: String,
}

#[derive(Debug)]
pub struct SuccessRetroRoomCreateResponse {
    pub is_success: bool,
    pub code: String,
    pub message: String,
    pub result: RetroRoomCreateResponse,
}

/// Request to join a room by its invite URL.
#[derive(Debug)]
pub struct JoinRetroRoomRequest {
    pub invite_url: String,
}

impl JoinRetroRoomRequest {
    /// The invite link must be a URL.
    pub fn validate(&self) -> (r: Result<(), ValidationErrors>)
        ensures
            r is Ok <==> crate::auth::validator_url_ok(self.invite_url@),
            r matches Err(e) ==> e.failed() == set!["invite_url"@],
    {
        crate::auth::single_rule(!crate::auth::invite_url_ok(self.invite_url.as_str()), "invite_url")
    }
}

#[derive(Debug)]
pub struct JoinRetroRoomResponse {
    pub retro_room_id: i64,
    pub title: String,
    pub joined_at: String,
}

#[derive(Debug)]
pub struct SuccessJoinRetroRoomResponse {
    pub is_success: bool,
    pub code: String,
    pub message: String,
    pub result: JoinRetroRoomResponse,
}

#[derive(Debug)]
pub struct RetroRoomListItem {
    pub retro_room_id: i64,
    pub retro_room_name: String,
    pub order_index: i32,
}

#[derive(Debug)]
pub struct SuccessRetroRoomListResponse {
    pub is_success: bool,
    pub code: String,
    pub message: String,
    pub result: Vec<RetroRoomListItem>,
}

/// The new position of one room.
#[derive(Debug)]
pub struct RetroRoomOrderItem {
    pub retro_room_id: i64,
    pub order_index: i32,
}

impl RetroRoomOrderItem {
    /// Both the room id and the position must be at least 1.
    pub fn validate(&self) -> (r: Result<(), ValidationErrors>)
        ensures
            r is Ok <==> (self.retro_room_id >= 1 && self.order_index >= 1),
            r matches Err(e) ==> e.failed() == Set::new(|f: Seq<char>|
                (f == "retro_room_id"@ && self.retro_room_id < 1) || (f == "order_index"@ && self.order_index < 1)),
    {
        let mut fields = StringSet::new();
        note(&mut fields, self.retro_room_id < 1, "retro_room_id");
        note(&mut fields, self.order_index < 1, "order_index");
        proof {
            reveal_strlit("retro_room_id");
            reveal_strlit("order_index");
            let expected = Set::new(|f: Seq<char>|
                (f == "retro_room_id"@ && self.retro_room_id < 1) || (f == "order_index"@ && self.order_index < 1));
            assert(fields@ =~= expected);
            if self.retro_room_id < 1 {
                assert(expected.contains("retro_room_id"@));
            }
            if self.order_index < 1 {
                assert(expected.contains("order_index"@));
            }
        }
        outcome(fields)
    }
}

/// Request to reorder the rooms of a member.
#[derive(Debug)]
pub struct UpdateRetroRoomOrderRequest {
    pub retro_room_orders: Vec<RetroRoomOrderItem>,
}

impl UpdateRetroRoomOrderRequest {
    /// At least one item, each of which must itself be valid.
    pub fn validate(&self) -> (r: Result<(), ValidationErrors>)
        ensures
            r is Ok <==> (self.retro_room_orders@.len() >= 1
                && forall|i: int| 0 <= i < self.retro_room_orders@.len() ==>
                    (#[trigger] self.retro_room_orders@[i]).retro_room_id >= 1
                    && self.retro_room_orders@[i].order_index >= 1),
    {
        let mut fields = StringSet::new();
        note(&mut fields, self.retro_room_orders.len() == 0, "retro_room_orders");
        let mut i: usize = 0;
        let mut nested_bad = false;
        while i < self.retro_room_orders.len()
            invariant
                i <= self.retro_room_orders@.len(),
                nested_bad <==> exists|j: int| 0 <= j < i && !((#[trigger] self.retro_room_orders@[j]).retro_room_id >= 1
                    && self.retro_room_orders@[j].order_index >= 1),
            decreases self.retro_room_orders.len() - i,
        {
            let item = &self.retro_room_orders[i];
            if item.validate().is_err() {
                nested_bad = true;
            }
            i = i + 1;
        }
        if nested_bad {
            fields.insert("retro_room_orders");
        }
        proof {
            if !nested_bad {
                assert forall|i: int| 0 <= i < self.retro_room_orders@.len() implies
                    (#[trigger] self.retro_room_orders@[i]).retro_room_id >= 1
                    && self.retro_room_orders@[i].order_index >= 1 by {
                    if !(self.retro_room_orders@[i].retro_room_id >= 1 && self.retro_room_orders@[i].order_index >= 1) {
                        assert(exists|j: int| 0 <= j < self.retro_room_orders@.len() && !((#[trigger] self.retro_room_orders@[j]).retro_room_id >= 1
                            && self.retro_room_orders@[j].order_index >= 1));
                    }
                }
            }
            if self.retro_room_orders@.len() == 0 || nested_bad {
                assert(fields@.contains("retro_room_orders"@));
            } else {
                assert(fields@ =~= Set::<Seq<char>>::empty());
            }
        }
        outcome(fields)
    }
}

#[derive(Debug)]
pub struct SuccessEmptyResponse {
    pub is_success: bool,
    pub code: String,
    pub message: String,
    pub result: Option<()>,
}

/// Request to rename a room.
#[derive(Debug)]
pub struct UpdateRetroRoomNameRequest {
    pub name: String,
}

impl UpdateRetroRoomNameRequest {
    /// The name must have 1 to 20 characters.
    pub fn validate(&self) -> (r: Result<(), ValidationErrors>)
        ensures
            r is Ok <==> (1 <= self.name@.len() <= 20),
            r matches Err(e) ==> e.failed() == set!["name"@],
    {
        let mut fields = StringSet::new();
        let n = char_count(self.name.as_str());
        note(&mut fields, n < 1 || n > 20, "name");
        proof {
            if !(1 <= self.name@.len() <= 20) {
                assert(fields@ =~= set!["name"@]);
                assert(fields@.contains("name"@));
            } else {
                assert(fields@ =~= Set::<Seq<char>>::empty());
            }
        }
        outcome(fields)
    }
}

#[derive(Debug)]
pub struct UpdateRetroRoomNameResponse {
    pub retro_room_id: i64,
    pub retro_room_name: String,
    pub updated_at: String,
}

#[derive(Debug)]
pub struct SuccessUpdateRetroRoomNameResponse {
    pub is_success: bool,
    pub code: String,
    pub message: String,
    pub result: UpdateRetroRoomNameResponse,
}

#[derive(Debug)]
pub struct DeleteRetroRoomResponse {
    pub retro_room_id: i64,
    pub deleted_at: String,
}

#[derive(Debug)]
pub struct SuccessDeleteRetroRoomResponse {
    pub is_success: bool,
    pub code: String,
    pub message: String,
    pub result: DeleteRetroRoomResponse,
}

#[derive(Debug)]
pub struct RetrospectListItem {
    pub retrospect_id: i64,
    pub project_name: String,
    pub retrospect_method: String,
    pub retrospect_date: String,
    pub retrospect_time: String,
}

#[derive(Debug)]
pub struct SuccessRetrospectListResponse {
    pub is_success: bool,
    pub code: String,
    pub message: String,
    pub result: Vec<RetrospectListItem>,
}

/// Whether some reference URL is longer than the limit.
pub open spec fn some_url_too_long(urls: Seq<String>) -> bool {
    exists|i: int| 0 <= i < urls.len() && byte_len((#[trigger] urls[i])@) > REFERENCE_URL_MAX_LENGTH
}

/// Finds a reference URL longer than the limit, in bytes.
fn has_overlong_url(urls: &Vec<String>) -> (b: bool)
    ensures
        b == some_url_too_long(urls@),
{
    let mut i: usize = 0;
    while i < urls.len()
        invariant
            i <= urls@.len(),
            forall|j: int| 0 <= j < i ==> byte_len((#[trigger] urls@[j])@) <= REFERENCE_URL_MAX_LENGTH,
        decreases urls.len() - i,
    {
        if urls[i].as_str().as_bytes().len() > REFERENCE_URL_MAX_LENGTH {
            assert(byte_len(urls@[i as int]@) > REFERENCE_URL_MAX_LENGTH);
            return true;
        }
        i = i + 1;
    }
    false
}

/// Request to create a retrospect.
#[derive(Debug)]
pub struct CreateRetrospectRequest {
    pub team_id: i64,
    pub project_name: String,
    pub retrospect_date: String,
    pub retrospect_time: String,
    pub retrospect_method: RetrospectMethod,
    pub reference_urls: Vec<String>,
}

/// The fields of a creation request that break their rules: a team id of at
/// least 1, a project name of 1 to 20 characters, a date of 10 characters, a
/// time of 5, and at most 10 reference URLs of at most 2048 bytes each.
pub open spec fn create_retrospect_failures(r: CreateRetrospectRequest) -> Set<Seq<char>> {
    Set::new(|f: Seq<char>|
        (f == "team_id"@ && r.team_id < 1)
        || (f == "project_name"@ && !(1 <= r.project_name@.len() <= 20))
        || (f == "retrospect_date"@ && r.retrospect_date@.len() != 10)
        || (f == "retrospect_time"@ && r.retrospect_time@.len() != 5)
        || (f == "reference_urls"@ && (r.reference_urls@.len() > 10 || some_url_too_long(r.reference_urls@))))
}

impl CreateRetrospectRequest {
    /// Checks every field; the error names each field that failed.
    pub fn validate(&self) -> (r: Result<(), ValidationErrors>)
        ensures
            r is Ok <==> create_retrospect_failures(*self) == Set::<Seq<char>>::empty(),
            r matches Err(e) ==> e.failed() == create_retrospect_failures(*self),
    {
        let mut fields = StringSet::new();
        note(&mut fields, self.team_id < 1, "team_id");
        let n = char_count(self.project_name.as_str());
        note(&mut fields, n < 1 || n > 20, "project_name");
        note(&mut fields, char_count(self.retrospect_date.as_str()) != 10, "retrospect_date");
        note(&mut fields, char_count(self.retrospect_time.as_str()) != 5, "retrospect_time");
        let urls_bad = self.reference_urls.len() > 10 || has_overlong_url(&self.reference_urls);
        note(&mut fields, urls_bad, "reference_urls");
        proof {
            reveal_strlit("team_id");
            reveal_strlit("project_name");
            reveal_strlit("retrospect_date");
            reveal_strlit("retrospect_time");
            reveal_strlit("reference_urls");
            assert(fields@ =~= create_retrospect_failures(*self));
        }
        outcome(fields)
    }
}

#[derive(Debug)]
pub struct CreateRetrospectResponse {
    pub retrospect_id: i64,
    pub team_id: i64,
    pub project_name: String,
}

#[derive(Debug)]
pub struct SuccessCreateRetrospectResponse {
    pub is_success: bool,
    pub code: String,
    pub message: String,
    pub result: CreateRetrospectResponse,
}

/// Answers saved without submitting.
#[derive(Debug)]
pub struct DraftSaveRequest {
    pub drafts: Vec<DraftItem>,
}

/// One saved answer; no content clears it.
#[derive(Debug)]
pub struct DraftItem {
    pub question_number: i32,
    pub content: Option<String>,
}

#[derive(Debug)]
pub struct DraftSaveResponse {
    pub retrospect_id: i64,
    pub updated_at: String,
}

#[derive(Debug)]
pub struct SuccessDraftSaveResponse {
    pub is_success: bool,
    pub code: String,
    pub message: String,
    pub result: DraftSaveResponse,
}

/// The final answers of a member.
#[derive(Debug)]
pub struct SubmitRetrospectRequest {
    pub answers: Vec<SubmitAnswerItem>,
}

/// One final answer.
#[derive(Debug)]
pub struct SubmitAnswerItem {
    pub question_number: i32,
    pub content: String,
}

#[derive(Debug)]
pub struct SubmitRetrospectResponse {
    pub retrospect_id: i64,
    pub submitted_at: String,
    pub status: RetrospectStatus,
}

#[derive(Debug)]
pub struct SuccessSubmitRetrospectResponse {
    pub is_success: bool,
    pub code: String,
    pub message: String,
    pub result: SubmitRetrospectResponse,
}

#[derive(Debug)]
pub struct TeamRetrospectListItem {
    pub retrospect_id: i64,
    pub project_name: String,
    pub retrospect_method: RetrospectMethod,
    pub retrospect_date: String,
    pub retrospect_time: String,
}

#[derive(Debug)]
pub struct SuccessTeamRetrospectListResponse {
    pub is_success: bool,
    pub code: String,
    pub message: String,
    pub result: Vec<TeamRetrospectListItem>,
}

#[derive(Debug)]
pub struct CreateParticipantResponse {
    pub participant_id: i64,
    pub member_id: i64,
    pub nickname: String,
}

#[derive(Debug)]
pub struct SuccessCreateParticipantResponse {
    pub is_success: bool,
    pub code: String,
    pub message: String,
    pub result: CreateParticipantResponse,
}

#[derive(Debug)]
pub struct ReferenceItem {
    pub reference_id: i64,
    pub url_name: String,
    pub url: String,
}

#[derive(Debug)]
pub struct SuccessReferencesListResponse {
    pub is_success: bool,
    pub code: String,
    pub message: String,
    pub result: Vec<ReferenceItem>,
}

#[derive(Debug)]
pub struct StorageQueryParams {
    pub range: Option<StorageRangeFilter>,
}

#[derive(Debug)]
pub struct StorageRetrospectItem {
    pub retrospect_id: i64,
    pub display_date: String,
    pub title: String,
    pub retrospect_method: RetrospectMethod,
    pub member_count: i64,
}

#[derive(Debug)]
pub struct StorageYearGroup {
    pub year_label: String,
    pub retrospects: Vec<StorageRetrospectItem>,
}

#[derive(Debug)]
pub struct StorageResponse {
    pub years: Vec<StorageYearGroup>,
}

#[derive(Debug)]
pub struct SuccessStorageResponse {
    pub is_success: bool,
    pub code: String,
    pub message: String,
    pub result: StorageResponse,
}

#[derive(Debug)]
pub struct RetrospectDetailResponse {
    pub team_id: i64,
    pub title: String,
    pub start_time: String,
    pub retro_category: RetrospectMethod,
    pub members: Vec<RetrospectMemberItem>,
    pub total_like_count: i64,
    pub total_comment_count: i64,
    pub questions: Vec<RetrospectQuestionItem>,
}

#[derive(Debug)]
pub struct RetrospectMemberItem {
    pub member_id: i64,
    pub user_name: String,
}

#[derive(Debug)]
pub struct RetrospectQuestionItem {
    pub index: i32,
    pub content: String,
}

#[derive(Debug)]
pub struct SuccessRetrospectDetailResponse {
    pub is_success: bool,
    pub code: String,
    pub message: String,
    pub result: RetrospectDetailResponse,
}

#[derive(Debug)]
pub struct SuccessDeleteRetrospectResponse {
    pub is_success: bool,
    pub code: String,
    pub message: String,
    pub result: Option<()>,
}

#[derive(Debug)]
pub struct EmotionRankItem {
    pub rank: i32,
    pub label: String,
    pub description: String,
    pub count: i32,
}

#[derive(Debug)]
pub struct MissionItem {
    pub mission_title: String,
    pub mission_desc: String,
}

#[derive(Debug)]
pub struct PersonalMissionItem {
    pub user_id: i64,
    pub user_name: String,
    pub missions: Vec<MissionItem>,
}

#[derive(Debug)]
pub struct AnalysisResponse {
    pub team_insight: String,
    pub emotion_rank: Vec<EmotionRankItem>,
    pub personal_missions: Vec<PersonalMissionItem>,
}

#[derive(Debug)]
pub struct SuccessAnalysisResponse {
    pub is_success: bool,
    pub code: String,
    pub message: String,
    pub result: AnalysisResponse,
}

#[derive(Debug)]
pub struct SearchQueryParams {
    pub keyword: Option<String>,
}

#[derive(Debug)]
pub struct SearchRetrospectItem {
    pub retrospect_id: i64,
    pub project_name: String,
    pub team_name: String,
    pub retrospect_method: RetrospectMethod,
    pub retrospect_date: String,
    pub retrospect_time: String,
}

#[derive(Debug)]
pub struct SuccessSearchResponse {
    pub is_success: bool,
    pub code: String,
    pub message: String,
    pub result: Vec<SearchRetrospectItem>,
}

#[derive(Debug)]
pub struct ResponsesQueryParams {
    pub category: String,
    pub cursor: Option<i64>,
    pub size: Option<i64>,
}

#[derive(Debug)]
pub struct ResponseListItem {
    pub response_id: i64,
    pub user_name: String,
    pub content: String,
    pub like_count: i64,
    pub comment_count: i64,
}

#[derive(Debug)]
pub struct ResponsesListResponse {
    pub responses: Vec<ResponseListItem>,
    pub has_next: bool,
    pub next_cursor: Option<i64>,
}

#[derive(Debug)]
pub struct ListCommentsQuery {
    pub cursor: Option<i64>,
    pub size: Option<i32>,
}

#[derive(Debug)]
pub struct CommentItem {
    pub comment_id: i64,
    pub member_id: i64,
    pub user_name: String,
    pub content: String,
    pub created_at: String,
}

#[derive(Debug)]
pub struct ListCommentsResponse {
    pub comments: Vec<CommentItem>,
    pub has_next: bool,
    pub next_cursor: Option<i64>,
}

#[derive(Debug)]
pub struct SuccessResponsesListResponse {
    pub is_success: bool,
    pub code: String,
    pub message: String,
    pub result: ResponsesListResponse,
}

#[derive(Debug)]
pub struct SuccessListCommentsResponse {
    pub is_success: bool,
    pub code: String,
    pub message: String,
    pub result: ListCommentsResponse,
}

/// Request to comment on an answer.
#[derive(Debug)]
pub struct CreateCommentRequest {
    pub content: String,
}

impl CreateCommentRequest {
    /// The content must not be empty.
    pub fn validate(&self) -> (r: Result<(), ValidationErrors>)
        ensures
            r is Ok <==> self.content@.len() >= 1,
            r matches Err(e) ==> e.failed() == set!["content"@],
    {
        let mut fields = StringSet::new();
        note(&mut fields, char_count(self.content.as_str()) < 1, "content");
        proof {
            if self.content@.len() < 1 {
                assert(fields@ =~= set!["content"@]);
                assert(fields@.contains("content"@));
            } else {
                assert(fields@ =~= Set::<Seq<char>>::empty());
            }
        }
        outcome(fields)
    }
}

#[derive(Debug)]
pub struct CreateCommentResponse {
    pub comment_id: i64,
    pub response_id: i64,
    pub content: String,
    pub created_at: String,
}

#[derive(Debug)]
pub struct SuccessCreateCommentResponse {
    pub is_success: bool,
    pub code: String,
    pub message: String,
    pub result: CreateCommentResponse,
}

/// A wire name names one method; with `parse`'s contract, reading the name
/// written for a method gives that method back.
pub proof fn method_names_are_distinct(a: RetrospectMethod, b: RetrospectMethod)
    ensures
        method_wire_name(a) == method_wire_name(b) ==> a == b,
{
    reveal_strlit("KPT");
    reveal_strlit("FOUR_L");
    reveal_strlit("FIVE_F");
    reveal_strlit("PMI");
    reveal_strlit("FREE");
    if method_wire_name(a) == method_wire_name(b) {
        let x = method_wire_name(a);
        let y = method_wire_name(b);
        assert(x.len() == y.len());
        assert(x[0] == y[0]);
        assert(x[x.len() - 1] == y[y.len() - 1]);
    }
}

/// A wire name names one storage period; with `parse`'s contract, reading the
/// name written for a period gives that period back.
pub proof fn range_names_are_distinct(a: StorageRangeFilter, b: StorageRangeFilter)
    ensures
        range_wire_name(a) == range_wire_name(b) ==> a == b,
{
    reveal_strlit("ALL");
    reveal_strlit("3_MONTHS");
    reveal_strlit("6_MONTHS");
    reveal_strlit("1_YEAR");
    if range_wire_name(a) == range_wire_name(b) {
        let x = range_wire_name(a);
        let y = range_wire_name(b);
        assert(x.len() == y.len());
        assert(x[0] == y[0]);
        assert(x[x.len() - 1] == y[y.len() - 1]);
    }
}

/// A wire name names one response category; with `parse`'s contract,
/// reading the name written for a category gives that category back.
pub proof fn category_names_are_distinct(a: ResponseCategory, b: ResponseCategory)
    ensures
        category_wire_name(a) == category_wire_name(b) ==> a == b,
{
    reveal_strlit("ALL");
    reveal_strlit("QUESTION_1");
    reveal_strlit("QUESTION_2");
    reveal_strlit("QUESTION_3");
    reveal_strlit("QUESTION_4");
    reveal_strlit("QUESTION_5");
    if category_wire_name(a) == category_wire_name(b) {
        let x = category_wire_name(a);
        let y = category_wire_name(b);
        assert(x.len() == y.len());
        assert(x[0] == y[0]);
        assert(x[x.len() - 1] == y[y.len() - 1]);
    }
}

} // verus!
