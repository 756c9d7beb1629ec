//! Sorting prompts into categories by the keywords that they mention.

use vstd::prelude::*;

use crate::text;

verus! {

pub const CATEGORY_VERSION: i64 = 1;

/// The number of categories with keywords of their own.
pub const CATEGORY_COUNT: usize = 12;

/// The category of the prompts that mention no keyword.
pub const OTHER: &'static str = "其他";

/// The names of the categories with keywords, in the order of their rank.
pub const CATEGORY_NAMES: [&'static str; 12] = [
    "海报设计",
    "UI/网页",
    "产品电商",
    "品牌视觉",
    "插画动漫",
    "人像写真",
    "美食饮品",
    "动物宠物",
    "风景建筑",
    "科技概念",
    "生活摄影",
    "3D 设计",
];

/// The keywords of "海报设计" and their weights.
pub const POSTER: [(&'static str, u16); 12] = [
    ("海报", 100),
    ("poster", 100),
    ("招贴", 100),
    ("flyer", 100),
    ("宣传页", 90),
    ("宣传画", 90),
    ("banner", 90),
    ("封面", 75),
    ("长图", 70),
    ("信息图", 90),
    ("infographic", 90),
    ("排版设计", 70),
];

/// The keywords of "UI/网页" and their weights.
pub const INTERFACE: [(&'static str, u16); 14] = [
    ("用户界面", 100),
    ("user interface", 100),
    ("app界面", 100),
    ("小程序界面", 100),
    ("网页设计", 100),
    ("web design", 100),
    ("landing page", 100),
    ("dashboard", 95),
    ("ui", 90),
    ("ux", 80),
    ("界面", 75),
    ("控制台", 70),
    ("交互设计", 75),
    ("网站首页", 85),
];

/// The keywords of "产品电商" and their weights.
pub const COMMERCE: [(&'static str, u16); 14] = [
    ("商品主图", 100),
    ("产品主图", 100),
    ("电商", 100),
    ("详情页", 100),
    ("产品图", 95),
    ("product photography", 95),
    ("白底图", 90),
    ("商品", 80),
    ("产品", 80),
    ("product", 80),
    ("包装", 70),
    ("packaging", 70),
    ("商业摄影", 65),
    ("commercial photography", 65),
];

/// The keywords of "品牌视觉" and their weights.
pub const BRAND: [(&'static str, u16); 11] = [
    ("品牌视觉", 100),
    ("品牌设计", 100),
    ("brand identity", 100),
    ("视觉识别", 95),
    ("vi设计", 95),
    ("logo", 100),
    ("标志设计", 100),
    ("字标", 90),
    ("字体设计", 80),
    ("品牌", 65),
    ("brand", 65),
];

/// The keywords of "插画动漫" and their weights.
pub const ILLUSTRATION: [(&'static str, u16); 21] = [
    ("插画", 100),
    ("illustration", 100),
    ("二次元", 100),
    ("动漫", 100),
    ("anime", 100),
    ("漫画", 95),
    ("comic", 95),
    ("卡通", 90),
    ("cartoon", 90),
    ("绘本", 90),
    ("像素画", 90),
    ("pixel art", 90),
    ("概念艺术", 85),
    ("concept art", 85),
    ("数字艺术", 75),
    ("digital art", 75),
    ("水彩", 65),
    ("watercolor", 65),
    ("油画", 65),
    ("oil painting", 65),
    ("国风", 60),
];

/// The keywords of "人像写真" and their weights.
pub const PORTRAIT: [(&'static str, u16); 17] = [
    ("人像", 100),
    ("portrait", 100),
    ("写真", 95),
    ("自拍", 90),
    ("selfie", 90),
    ("模特", 80),
    ("model shoot", 85),
    ("证件照", 95),
    ("婚纱照", 95),
    ("人物摄影", 90),
    ("人物", 55),
    ("女性", 50),
    ("男性", 50),
    ("女孩", 50),
    ("男孩", 50),
    ("少女", 55),
    ("青年", 45),
];

/// The keywords of "美食饮品" and their weights.
pub const FOOD: [(&'static str, u16); 16] = [
    ("美食", 100),
    ("food photography", 100),
    ("菜品", 95),
    ("餐饮", 90),
    ("食物", 90),
    ("food", 90),
    ("甜点", 90),
    ("dessert", 90),
    ("饮品", 85),
    ("beverage", 85),
    ("料理", 85),
    ("烘焙", 80),
    ("蛋糕", 75),
    ("咖啡", 65),
    ("茶饮", 75),
    ("鸡尾酒", 75),
];

/// The keywords of "动物宠物" and their weights.
pub const ANIMAL: [(&'static str, u16); 33] = [
    ("动物", 100),
    ("animal", 100),
    ("宠物", 100),
    ("pet", 100),
    ("猫咪", 95),
    ("小猫", 95),
    ("橘猫", 90),
    ("狸花猫", 90),
    ("布偶猫", 90),
    ("宠物猫", 90),
    ("一只猫", 90),
    ("cat", 90),
    ("狗狗", 95),
    ("小狗", 95),
    ("柴犬", 90),
    ("柯基", 90),
    ("金毛", 90),
    ("宠物狗", 90),
    ("一只狗", 90),
    ("dog", 90),
    ("小鸟", 80),
    ("飞鸟", 80),
    ("鸟类", 80),
    ("鹦鹉", 80),
    ("bird", 80),
    ("兔子", 85),
    ("rabbit", 85),
    ("马匹", 75),
    ("骏马", 75),
    ("白马", 75),
    ("horse", 75),
    ("熊猫", 90),
    ("panda", 90),
];

/// The keywords of "风景建筑" and their weights.
pub const LANDSCAPE: [(&'static str, u16); 19] = [
    ("风景", 100),
    ("landscape", 100),
    ("建筑", 100),
    ("architecture", 100),
    ("室内设计", 100),
    ("interior design", 100),
    ("城市景观", 95),
    ("cityscape", 95),
    ("街景", 85),
    ("山川", 85),
    ("森林", 80),
    ("海边", 80),
    ("自然风光", 95),
    ("旅行摄影", 85),
    ("房间", 60),
    ("客厅", 70),
    ("卧室", 70),
    ("庭院", 75),
    ("日落", 60),
];

/// The keywords of "科技概念" and their weights.
pub const TECHNOLOGY: [(&'static str, u16); 15] = [
    ("科技", 100),
    ("technology", 100),
    ("科幻", 95),
    ("sci-fi", 95),
    ("science fiction", 95),
    ("赛博朋克", 95),
    ("cyberpunk", 95),
    ("机器人", 90),
    ("robot", 90),
    ("太空", 85),
    ("space", 85),
    ("未来主义", 85),
    ("futuristic", 85),
    ("机甲", 90),
    ("全息", 75),
];

/// The keywords of "生活摄影" and their weights.
pub const LIFESTYLE: [(&'static str, u16); 16] = [
    ("生活方式", 100),
    ("lifestyle", 100),
    ("纪实摄影", 95),
    ("documentary photography", 95),
    ("街拍", 90),
    ("street photography", 90),
    ("婚礼", 85),
    ("wedding", 85),
    ("运动摄影", 90),
    ("sports photography", 90),
    ("汽车摄影", 90),
    ("automotive photography", 90),
    ("静物摄影", 90),
    ("still life", 90),
    ("家居", 70),
    ("旅行", 65),
];

/// The keywords of "3D 设计" and their weights.
pub const THREE_D: [(&'static str, u16); 13] = [
    ("3d", 100),
    ("三维", 100),
    ("cgi", 100),
    ("c4d", 100),
    ("blender", 100),
    ("三维建模", 100),
    ("3d render", 100),
    ("黏土风", 85),
    ("粘土风", 85),
    ("clay render", 85),
    ("建模", 80),
    ("渲染", 55),
    ("render", 55),
];

/// The keywords of a category and their weights.
pub open spec fn keywords_of(category: int) -> Seq<(&'static str, u16)> {
    if category == 0 {
        POSTER@
    } else if category == 1 {
        INTERFACE@
    } else if category == 2 {
        COMMERCE@
    } else if category == 3 {
        BRAND@
    } else if category == 4 {
        ILLUSTRATION@
    } else if category == 5 {
        PORTRAIT@
    } else if category == 6 {
        FOOD@
    } else if category == 7 {
        ANIMAL@
    } else if category == 8 {
        LANDSCAPE@
    } else if category == 9 {
        TECHNOLOGY@
    } else if category == 10 {
        LIFESTYLE@
    } else {
        THREE_D@
    }
}

/// The keywords of a category and their weights.
fn keywords(category: usize) -> (r: Vec<(&'static str, u16)>)
    requires
        category < CATEGORY_COUNT,
    ensures
        r@ == keywords_of(category as int),
        r@.len() <= 64,
{
    let list: &[(&'static str, u16)] = match category {
        0 => &POSTER,
        1 => &INTERFACE,
        2 => &COMMERCE,
        3 => &BRAND,
        4 => &ILLUSTRATION,
        5 => &PORTRAIT,
        6 => &FOOD,
        7 => &ANIMAL,
        8 => &LANDSCAPE,
        9 => &TECHNOLOGY,
        10 => &LIFESTYLE,
        _ => &THREE_D,
    };
    let mut out: Vec<(&'static str, u16)> = Vec::new();
    let mut i: usize = 0;
    while i < list.len()
        invariant
            i <= list@.len(),
            out@ == list@.take(i as int),
        decreases list@.len() - i,
    {
        out.push(list[i]);
        assert(out@ == list@.take(i + 1));
        i += 1;
    }
    assert(list@.take(list@.len() as int) == list@);
    out
}

/// Whether a character is an ASCII letter or digit.
pub open spec fn is_ascii_alphanumeric(c: char) -> bool {
    ('0' <= c && c <= '9') || ('a' <= c && c <= 'z') || ('A' <= c && c <= 'Z')
}

/// Whether a keyword is made of ASCII words, so that it counts only where words begin and end.
pub open spec fn is_wordy(keyword: Seq<char>) -> bool {
    forall|i: int|
        0 <= i < keyword.len() ==> is_ascii_alphanumeric(#[trigger] keyword[i]) || keyword[i] == ' '
}

/// Whether no ASCII letter or digit stands right before or right behind a place.
pub open spec fn stands_alone(s: Seq<char>, from: int, to: int) -> bool {
    &&& from == 0 || !is_ascii_alphanumeric(s[from - 1])
    &&& to == s.len() || !is_ascii_alphanumeric(s[to])
}

/// Whether one of the occurrences of a keyword, from a position on and read from left to right
/// without overlap, stands alone.
pub open spec fn word_from(s: Seq<char>, keyword: Seq<char>, from: int) -> bool
    decreases s.len() + 1 - from,
{
    if from < 0 || from > s.len() {
        false
    } else if text::occurs_at(s, keyword, from) {
        stands_alone(s, from, from + keyword.len()) || word_from(
            s,
            keyword,
            from + if keyword.len() == 0 {
                1
            } else {
                keyword.len() as int
            },
        )
    } else {
        word_from(s, keyword, from + 1)
    }
}

/// Whether a text mentions a keyword.
pub open spec fn mentions(s: Seq<char>, keyword: Seq<char>) -> bool {
    if is_wordy(keyword) {
        word_from(s, keyword, 0)
    } else {
        text::occurs(s, keyword)
    }
}

/// The highest weight and the sum of the weights of the keywords that a text mentions.
pub open spec fn score(s: Seq<char>, list: Seq<(&'static str, u16)>) -> (int, int)
    decreases list.len(),
{
    if list.len() == 0 {
        (0, 0)
    } else {
        let before = score(s, list.drop_last());
        let weight = list.last().1 as int;
        if mentions(s, list.last().0@) {
            (
                if weight > before.0 {
                    weight
                } else {
                    before.0
                },
                before.1 + weight,
            )
        } else {
            before
        }
    }
}

/// Scores compare by the highest weight, then by the sum.
pub open spec fn at_least(a: (int, int), b: (int, int)) -> bool {
    a.0 > b.0 || (a.0 == b.0 && a.1 >= b.1)
}

/// The score of a text in a category.
pub open spec fn category_score(s: Seq<char>, category: int) -> (int, int) {
    score(s, keywords_of(category))
}

/// The best of the first `count` categories: among equals, the last.
pub open spec fn best_of(s: Seq<char>, count: int) -> int
    decreases count,
{
    if count <= 1 {
        0
    } else {
        let before = best_of(s, count - 1);
        if at_least(category_score(s, count - 1), category_score(s, before)) {
            count - 1
        } else {
            before
        }
    }
}

/// The category of a text in lower case.
pub open spec fn category_of(s: Seq<char>) -> Seq<char> {
    let best = best_of(s, 12);
    if category_score(s, best).0 > 0 {
        CATEGORY_NAMES@[best]@
    } else {
        OTHER@
    }
}

fn ascii_alphanumeric(c: char) -> (r: bool)
    ensures
        r == is_ascii_alphanumeric(c),
{
    ('0' <= c && c <= '9') || ('a' <= c && c <= 'z') || ('A' <= c && c <= 'Z')
}

/// Whether a text mentions a keyword.
pub fn contains_keyword(haystack: &str, keyword: &str) -> (r: bool)
    ensures
        r == mentions(haystack@, keyword@),
{
    let part = text::characters(keyword);
    let mut i: usize = 0;
    while i < part.len()
        invariant
            part@ == keyword@,
            i <= part@.len(),
            forall|j: int|
                0 <= j < i ==> is_ascii_alphanumeric(#[trigger] keyword@[j]) || keyword@[j] == ' ',
        decreases part@.len() - i,
    {
        if !ascii_alphanumeric(part[i]) && part[i] != ' ' {
            return text::contains(haystack, keyword);
        }
        i += 1;
    }
    let chars = text::characters(haystack);
    let count: usize = chars.len();
    let mut from: usize = 0;
    while from <= count
        invariant
            chars@ == haystack@,
            part@ == keyword@,
            is_wordy(keyword@),
            count == chars@.len(),
            from <= count + 1 || !word_from(haystack@, keyword@, 0),
            word_from(haystack@, keyword@, 0) == word_from(haystack@, keyword@, from as int),
        decreases count + 1 - from,
    {
        if text::matches_at(&chars, &part, from) {
            let to: usize = from + part.len();
            let open = from == 0 || !ascii_alphanumeric(chars[from - 1]);
            let close = to == count || !ascii_alphanumeric(chars[to]);
            if open && close {
                return true;
            }
            if part.len() == 0 {
                if from == count {
                    assert(!word_from(haystack@, keyword@, count + 1));
                    return false;
                }
                from += 1;
            } else {
                from = to;
            }
        } else {
            if from == count {
                assert(!word_from(haystack@, keyword@, count + 1));
                return false;
            }
            from += 1;
        }
    }
    false
}

/// The score of a text over some keywords.
fn score_keywords(lowered: &str, list: &[(&'static str, u16)]) -> (r: (u16, u32))
    requires
        list@.len() <= 64,
    ensures
        (r.0 as int, r.1 as int) == score(lowered@, list@),
{
    let mut strongest: u16 = 0;
    let mut total: u32 = 0;
    let mut i: usize = 0;
    while i < list.len()
        invariant
            i <= list@.len() <= 64,
            (strongest as int, total as int) == score(lowered@, list@.take(i as int)),
            total <= i * 65_535,
        decreases list@.len() - i,
    {
        assert(list@.take(i + 1).drop_last() == list@.take(i as int));
        assert(list@.take(i + 1).last() == list@[i as int]);
        let (keyword, weight) = list[i];
        if contains_keyword(lowered, keyword) {
            if weight > strongest {
                strongest = weight;
            }
            total += weight as u32;
        }
        i += 1;
    }
    assert(list@.take(list@.len() as int) == list@);
    (strongest, total)
}

/// The score of a text in a category.
fn score_category(lowered: &str, category: usize) -> (r: (u16, u32))
    requires
        category < CATEGORY_COUNT,
    ensures
        (r.0 as int, r.1 as int) == category_score(lowered@, category as int),
{
    let list = keywords(category);
    score_keywords(lowered, &list)
}

/// The category of a prompt that is already in lower case.
pub fn classify_lowered(lowered: &str) -> (r: &'static str)
    ensures
        r@ == category_of(lowered@),
{
    let mut best: usize = 0;
    let (mut strongest, mut total) = score_category(lowered, 0);
    let mut i: usize = 1;
    while i < CATEGORY_COUNT
        invariant
            1 <= i <= 12,
            best < 12,
            best as int == best_of(lowered@, i as int),
            (strongest as int, total as int) == category_score(lowered@, best as int),
        decreases 12 - i,
    {
        let (next_strongest, next_total) = score_category(lowered, i);
        if next_strongest > strongest || (next_strongest == strongest && next_total >= total) {
            best = i;
            strongest = next_strongest;
            total = next_total;
        }
        i += 1;
    }
    if strongest > 0 {
        CATEGORY_NAMES[best]
    } else {
        OTHER
    }
}

/// The category of a prompt, whatever the case of its letters: prompts that differ only in the
/// case of ASCII letters have the same one.
pub fn classify_prompt(prompt: &str) -> (r: &'static str)
    ensures
        r@ == category_of(text::lowercase(prompt@)),
        forall|other: Seq<char>|
            text::ascii_lowered(other) == text::ascii_lowered(prompt@) ==> r@ == category_of(
                #[trigger] text::lowercase(other),
            ),
        r@ == category_of(text::lowercase(text::ascii_uppered(prompt@))),
        r@ == category_of(text::lowercase(text::ascii_lowered(prompt@))),
{
    proof {
        text::ascii_case_is_folded(prompt@);
    }
    let lowered = text::to_lowercase(prompt);
    classify_lowered(lowered.as_str())
}

/// The rank of a category: its place among the names, or their number for any other.
pub open spec fn is_rank(category: Seq<char>, rank: int) -> bool {
    &&& 0 <= rank <= 12
    &&& rank < 12 ==> CATEGORY_NAMES@[rank]@ == category
    &&& forall|i: int| 0 <= i < rank ==> #[trigger] CATEGORY_NAMES@[i]@ != category
}

/// The rank of a category: its place among the names, or their number for any other.
pub fn category_rank(category: &str) -> (r: usize)
    ensures
        is_rank(category@, r as int),
{
    let mut i: usize = 0;
    while i < CATEGORY_COUNT
        invariant
            i <= 12,
            forall|j: int| 0 <= j < i ==> #[trigger] CATEGORY_NAMES@[j]@ != category@,
        decreases 12 - i,
    {
        if text::same(CATEGORY_NAMES[i], category) {
            return i;
        }
        i += 1;
    }
    i
}

/// The best category has a score that no other category exceeds and no later one reaches.
pub proof fn best_is_last_of_the_strongest(s: Seq<char>, count: int, other: int)
    requires
        1 <= count <= 12,
        0 <= other < count,
    ensures
        0 <= best_of(s, count) < count,
        at_least(category_score(s, best_of(s, count)), category_score(s, other)),
        other > best_of(s, count) ==> !at_least(
            category_score(s, other),
            category_score(s, best_of(s, count)),
        ),
    decreases count,
{
    if count > 1 {
        if other < count - 1 {
            best_is_last_of_the_strongest(s, count - 1, other);
        } else {
            best_is_last_of_the_strongest(s, count - 1, 0);
        }
        let before = best_of(s, count - 1);
        best_is_last_of_the_strongest(s, count - 1, before_or_zero(before, count - 1));
    }
}

/// An index below a count: itself where it is one, else the first.
spec fn before_or_zero(index: int, count: int) -> int {
    if 0 <= index < count {
        index
    } else {
        0
    }
}

/// A category has one rank only.
pub proof fn ranks_are_unique(category: Seq<char>, first: int, second: int)
    requires
        is_rank(category, first),
        is_rank(category, second),
    ensures
        first == second,
{
    if first < second {
        assert(CATEGORY_NAMES@[first]@ != category);
    } else if second < first {
        assert(CATEGORY_NAMES@[second]@ != category);
    }
}

/// Every category's name ranks at its own place, before the category of everything else.
pub proof fn names_rank_in_order(place: int)
    requires
        0 <= place < 12,
    ensures
        is_rank(CATEGORY_NAMES@[place]@, place),
        is_rank(OTHER@, 12),
{
    reveal_strlit("海报设计");
    reveal_strlit("UI/网页");
    reveal_strlit("产品电商");
    reveal_strlit("品牌视觉");
    reveal_strlit("插画动漫");
    reveal_strlit("人像写真");
    reveal_strlit("美食饮品");
    reveal_strlit("动物宠物");
    reveal_strlit("风景建筑");
    reveal_strlit("科技概念");
    reveal_strlit("生活摄影");
    reveal_strlit("3D 设计");
    reveal_strlit("其他");
    assert(CATEGORY_NAMES@[0]@[0] == '海');
    assert(CATEGORY_NAMES@[1]@[0] == 'U');
    assert(CATEGORY_NAMES@[2]@[0] == '产');
    assert(CATEGORY_NAMES@[3]@[0] == '品');
    assert(CATEGORY_NAMES@[4]@[0] == '插');
    assert(CATEGORY_NAMES@[5]@[0] == '人');
    assert(CATEGORY_NAMES@[6]@[0] == '美');
    assert(CATEGORY_NAMES@[7]@[0] == '动');
    assert(CATEGORY_NAMES@[8]@[0] == '风');
    assert(CATEGORY_NAMES@[9]@[0] == '科');
    assert(CATEGORY_NAMES@[10]@[0] == '生');
    assert(CATEGORY_NAMES@[11]@[0] == '3');
    assert(OTHER@[0] == '其');
}

/// What the score of a text over some keywords is: the highest weight that it mentions, if any.
proof fn lemma_score(s: Seq<char>, list: Seq<(&'static str, u16)>)
    ensures
        score(s, list).0 >= 0,
        score(s, list).1 >= score(s, list).0,
        forall|k: int|
            0 <= k < list.len() && mentions(s, (#[trigger] list[k]).0@) ==> score(s, list).0
                >= list[k].1,
        score(s, list).0 > 0 ==> exists|k: int|
            0 <= k < list.len() && mentions(s, (#[trigger] list[k]).0@) && list[k].1 == score(
                s,
                list,
            ).0,
        (forall|k: int| 0 <= k < list.len() ==> !mentions(s, (#[trigger] list[k]).0@)) ==> score(
            s,
            list,
        ) == (0int, 0int),
    decreases list.len(),
{
    if list.len() > 0 {
        let before = list.drop_last();
        lemma_score(s, before);
        let last = list.len() - 1;
        assert forall|k: int| 0 <= k < list.len() && mentions(s, (#[trigger] list[k]).0@) implies score(
            s,
            list,
        ).0 >= list[k].1 by {
            if k < last {
                assert(before[k] == list[k]);
            }
        }
        if score(s, list).0 > 0 {
            if mentions(s, list.last().0@) && list.last().1 as int == score(s, list).0 {
                assert(list[last] == list.last());
            } else {
                let k = choose|k: int|
                    0 <= k < before.len() && mentions(s, (#[trigger] before[k]).0@) && before[k].1
                        == score(s, before).0;
                assert(list[k] == before[k]);
            }
        }
        if forall|k: int| 0 <= k < list.len() ==> !mentions(s, (#[trigger] list[k]).0@) {
            assert(!mentions(s, list[last].0@));
            assert forall|k: int| 0 <= k < before.len() implies !mentions(
                s,
                (#[trigger] before[k]).0@,
            ) by {
                assert(before[k] == list[k]);
            }
        }
    }
}

/// Every keyword has a weight.
proof fn lemma_weights(category: int)
    requires
        0 <= category < 12,
    ensures
        forall|k: int|
            0 <= k < keywords_of(category).len() ==> (#[trigger] keywords_of(category)[k]).1 > 0,
{
}

/// The name of everything else is not that of a category.
proof fn lemma_other(place: int)
    requires
        0 <= place < 12,
    ensures
        CATEGORY_NAMES@[place]@ != OTHER@,
{
    names_rank_in_order(place);
}

/// A prompt that mentions a keyword of some category is sorted into a category whose keywords it
/// mentions, never among everything else.
pub proof fn mentioned_keywords_give_a_category(
    lowered: &str,
    r: &'static str,
    category: int,
    k: int,
)
    requires
        call_ensures(classify_lowered, (lowered,), r),
        0 <= category < 12,
        0 <= k < keywords_of(category).len(),
        mentions(lowered@, keywords_of(category)[k].0@),
    ensures
        r@ != "其他"@,
        exists|c: int, j: int|
            {
                &&& 0 <= c < 12
                &&& 0 <= j < keywords_of(c).len()
                &&& mentions(lowered@, (#[trigger] keywords_of(c)[j]).0@)
                &&& r@ == CATEGORY_NAMES@[c]@
            },
{
    let s = lowered@;
    let best = best_of(s, 12);
    lemma_weights(category);
    lemma_score(s, keywords_of(category));
    best_is_last_of_the_strongest(s, 12, category);
    lemma_score(s, keywords_of(best));
    let j = choose|j: int|
        0 <= j < keywords_of(best).len() && mentions(s, (#[trigger] keywords_of(best)[j]).0@)
            && keywords_of(best)[j].1 == category_score(s, best).0;
    assert(mentions(s, keywords_of(best)[j].0@));
    lemma_other(best);
}

/// A prompt that mentions no keyword at all is sorted among everything else.
pub proof fn prompts_without_keywords_are_other(lowered: &str, r: &'static str)
    requires
        call_ensures(classify_lowered, (lowered,), r),
        forall|c: int, j: int|
            0 <= c < 12 && 0 <= j < keywords_of(c).len() ==> !mentions(
                lowered@,
                (#[trigger] keywords_of(c)[j]).0@,
            ),
    ensures
        r@ == "其他"@,
{
    let best = best_of(lowered@, 12);
    best_is_last_of_the_strongest(lowered@, 12, 0);
    lemma_score(lowered@, keywords_of(best));
}

/// The strongest keyword decides: where a prompt mentions one that outweighs every keyword of the
/// other categories that it mentions, its category is chosen.
pub proof fn the_strongest_keyword_decides(
    lowered: &str,
    r: &'static str,
    category: int,
    k: int,
)
    requires
        call_ensures(classify_lowered, (lowered,), r),
        0 <= category < 12,
        0 <= k < keywords_of(category).len(),
        mentions(lowered@, keywords_of(category)[k].0@),
        forall|c: int, j: int|
            0 <= c < 12 && c != category && 0 <= j < keywords_of(c).len() && mentions(
                lowered@,
                (#[trigger] keywords_of(c)[j]).0@,
            ) ==> keywords_of(c)[j].1 < keywords_of(category)[k].1,
    ensures
        r@ == CATEGORY_NAMES@[category]@,
{
    let s = lowered@;
    let best = best_of(s, 12);
    lemma_weights(category);
    lemma_score(s, keywords_of(category));
    best_is_last_of_the_strongest(s, 12, category);
    lemma_score(s, keywords_of(best));
    if best != category {
        let j = choose|j: int|
            0 <= j < keywords_of(best).len() && mentions(s, (#[trigger] keywords_of(best)[j]).0@)
                && keywords_of(best)[j].1 == category_score(s, best).0;
        assert(mentions(s, keywords_of(best)[j].0@));
        assert(keywords_of(best)[j].1 < keywords_of(category)[k].1);
    }
}

/// A prompt that mentions keywords of one category only is sorted into that category.
pub proof fn the_only_category_mentioned_is_chosen(
    lowered: &str,
    r: &'static str,
    category: int,
    k: int,
)
    requires
        call_ensures(classify_lowered, (lowered,), r),
        0 <= category < 12,
        0 <= k < keywords_of(category).len(),
        mentions(lowered@, keywords_of(category)[k].0@),
        forall|c: int, j: int|
            0 <= c < 12 && c != category && 0 <= j < keywords_of(c).len() ==> !mentions(
                lowered@,
                (#[trigger] keywords_of(c)[j]).0@,
            ),
    ensures
        r@ == CATEGORY_NAMES@[category]@,
{
    the_strongest_keyword_decides(lowered, r, category, k);
}

/// A prompt is sorted as its lower-case form is.
pub proof fn prompts_are_sorted_in_lower_case(
    prompt: &str,
    lowered: &str,
    r: &'static str,
    s: &'static str,
)
    requires
        lowered@ == text::lowercase(prompt@),
        call_ensures(classify_prompt, (prompt,), r),
        call_ensures(classify_lowered, (lowered,), s),
    ensures
        r@ == s@,
{
}

/// A keyword that holds any character but ASCII letters, digits and spaces is mentioned wherever
/// it occurs, and nowhere else.
pub proof fn other_keywords_count_wherever_they_occur(
    haystack: &str,
    keyword: &str,
    r: bool,
    at: int,
)
    requires
        call_ensures(contains_keyword, (haystack, keyword), r),
        0 <= at < keyword@.len(),
        !is_ascii_alphanumeric(keyword@[at]),
        keyword@[at] != ' ',
    ensures
        r <==> exists|i: int|
            0 <= i <= haystack@.len() - keyword@.len() && #[trigger] haystack@.subrange(
                i,
                i + keyword@.len(),
            ) == keyword@,
{
    if r {
        let i = choose|i: int| text::occurs_at(haystack@, keyword@, i);
        assert(haystack@.subrange(i, i + keyword@.len()) == keyword@);
    }
    if exists|i: int|
        0 <= i <= haystack@.len() - keyword@.len() && #[trigger] haystack@.subrange(
            i,
            i + keyword@.len(),
        ) == keyword@ {
        let i = choose|i: int|
            0 <= i <= haystack@.len() - keyword@.len() && #[trigger] haystack@.subrange(
                i,
                i + keyword@.len(),
            ) == keyword@;
        assert(text::occurs_at(haystack@, keyword@, i));
    }
}

/// Where a keyword occurs as a word of its own, from a position on, and read so.
proof fn lemma_word_found(s: Seq<char>, keyword: Seq<char>, from: int) -> (at: int)
    requires
        word_from(s, keyword, from),
    ensures
        text::occurs_at(s, keyword, at),
        stands_alone(s, at, at + keyword.len()),
    decreases s.len() + 1 - from,
{
    if text::occurs_at(s, keyword, from) {
        if stands_alone(s, from, from + keyword.len()) {
            from
        } else if keyword.len() == 0 {
            lemma_word_found(s, keyword, from + 1)
        } else {
            lemma_word_found(s, keyword, from + keyword.len())
        }
    } else {
        lemma_word_found(s, keyword, from + 1)
    }
}

/// A word that stands alone is found by whoever starts before it.
proof fn lemma_word_is_found(s: Seq<char>, keyword: Seq<char>, from: int, at: int)
    requires
        keyword.len() > 0,
        forall|k: int| 0 <= k < keyword.len() ==> is_ascii_alphanumeric(#[trigger] keyword[k]),
        0 <= from <= at,
        text::occurs_at(s, keyword, at),
        stands_alone(s, at, at + keyword.len()),
    ensures
        word_from(s, keyword, from),
    decreases at - from,
{
    if from < at {
        if text::occurs_at(s, keyword, from) {
            let next = from + keyword.len();
            if next > at {
                assert(s.subrange(from, next)[at - 1 - from] == keyword[at - 1 - from]);
                assert(is_ascii_alphanumeric(s[at - 1]));
            } else if !stands_alone(s, from, next) {
                lemma_word_is_found(s, keyword, next, at);
            }
        } else {
            lemma_word_is_found(s, keyword, from + 1, at);
        }
    }
}

/// A keyword of ASCII letters, digits and spaces is mentioned only where it stands as a word of
/// its own: no letter or digit right before or right behind it.
pub proof fn words_count_only_on_their_own(haystack: &str, keyword: &str, r: bool)
    requires
        call_ensures(contains_keyword, (haystack, keyword), r),
        r,
        forall|k: int|
            0 <= k < keyword@.len() ==> is_ascii_alphanumeric(#[trigger] keyword@[k]) || keyword@[k]
                == ' ',
    ensures
        exists|i: int|
            {
                &&& 0 <= i <= haystack@.len() - keyword@.len()
                &&& #[trigger] haystack@.subrange(i, i + keyword@.len()) == keyword@
                &&& i > 0 ==> !is_ascii_alphanumeric(haystack@[i - 1])
                &&& i + keyword@.len() < haystack@.len() ==> !is_ascii_alphanumeric(
                    haystack@[i + keyword@.len()],
                )
            },
{
    let at = lemma_word_found(haystack@, keyword@, 0);
    assert(haystack@.subrange(at, at + keyword@.len()) == keyword@);
}

/// A keyword of ASCII letters and digits is mentioned wherever it stands as a word of its own.
pub proof fn words_on_their_own_count(haystack: &str, keyword: &str, r: bool, i: int)
    requires
        call_ensures(contains_keyword, (haystack, keyword), r),
        keyword@.len() > 0,
        forall|k: int| 0 <= k < keyword@.len() ==> is_ascii_alphanumeric(#[trigger] keyword@[k]),
        0 <= i <= haystack@.len() - keyword@.len(),
        haystack@.subrange(i, i + keyword@.len()) == keyword@,
        i > 0 ==> !is_ascii_alphanumeric(haystack@[i - 1]),
        i + keyword@.len() < haystack@.len() ==> !is_ascii_alphanumeric(
            haystack@[i + keyword@.len()],
        ),
    ensures
        r,
{
    assert(text::occurs_at(haystack@, keyword@, i));
    lemma_word_is_found(haystack@, keyword@, 0, i);
}

/// A category's rank is its place among the names; everything else comes behind them all.
pub proof fn ranks_are_places(category: &str, r: usize, place: int)
    requires
        call_ensures(category_rank, (category,), r),
        0 <= place < 12,
    ensures
        r <= 12,
        category@ == CATEGORY_NAMES@[place]@ ==> r == place,
        r < 12 ==> CATEGORY_NAMES@[r as int]@ == category@,
{
    if category@ == CATEGORY_NAMES@[place]@ {
        names_rank_in_order(place);
        ranks_are_unique(category@, r as int, place);
    }
}

/// The weights of the keywords that a text mentions, taken together.
pub open spec fn weight_mentioned(s: Seq<char>, list: Seq<(&'static str, u16)>) -> int
    decreases list.len(),
{
    if list.len() == 0 {
        0
    } else {
        (if mentions(s, list[0].0@) {
            list[0].1 as int
        } else {
            0
        }) + weight_mentioned(s, list.skip(1))
    }
}

/// The sum of weights can be taken from either end.
proof fn lemma_weight_mentioned(s: Seq<char>, list: Seq<(&'static str, u16)>)
    ensures
        weight_mentioned(s, list) == score(s, list).1,
    decreases list.len(),
{
    if list.len() == 1 {
        assert(list.skip(1).len() == 0);
        assert(list.drop_last().len() == 0);
        assert(list[0] == list.last());
        reveal_with_fuel(score, 2);
        reveal_with_fuel(weight_mentioned, 2);
    } else if list.len() > 1 {
        let inner = list.skip(1).drop_last();
        assert(list.drop_last().skip(1) == inner);
        lemma_weight_mentioned(s, list.drop_last());
        lemma_weight_mentioned(s, list.skip(1));
        lemma_weight_mentioned(s, inner);
        assert(list.skip(1).last() == list.last());
        assert(list.drop_last()[0] == list[0]);
    }
}

/// Between two categories whose strongest keywords weigh the same, the one whose keywords weigh
/// more together wins, and else the later one: the other is not chosen.
pub proof fn the_fuller_category_wins(
    lowered: &str,
    r: &'static str,
    winner: int,
    loser: int,
    k: int,
)
    requires
        call_ensures(classify_lowered, (lowered,), r),
        0 <= winner < 12,
        0 <= loser < 12,
        winner != loser,
        0 <= k < keywords_of(winner).len(),
        mentions(lowered@, keywords_of(winner)[k].0@),
        forall|j: int|
            0 <= j < keywords_of(loser).len() && mentions(
                lowered@,
                (#[trigger] keywords_of(loser)[j]).0@,
            ) ==> keywords_of(loser)[j].1 <= keywords_of(winner)[k].1,
        ({
            let more = weight_mentioned(lowered@, keywords_of(winner));
            let less = weight_mentioned(lowered@, keywords_of(loser));
            more > less || (more == less && winner > loser)
        }),
    ensures
        r@ != CATEGORY_NAMES@[loser]@,
{
    let s = lowered@;
    let best = best_of(s, 12);
    lemma_weights(winner);
    lemma_score(s, keywords_of(winner));
    lemma_score(s, keywords_of(loser));
    lemma_weight_mentioned(s, keywords_of(winner));
    lemma_weight_mentioned(s, keywords_of(loser));
    best_is_last_of_the_strongest(s, 12, winner);
    if best == loser {
        assert(category_score(s, loser).0 > 0);
        let j = choose|j: int|
            0 <= j < keywords_of(loser).len() && mentions(s, (#[trigger] keywords_of(loser)[j]).0@)
                && keywords_of(loser)[j].1 == category_score(s, loser).0;
        assert(keywords_of(loser)[j].1 <= keywords_of(winner)[k].1);
    }
    names_rank_in_order(loser);
    names_rank_in_order(best);
    if CATEGORY_NAMES@[best]@ == CATEGORY_NAMES@[loser]@ {
        ranks_are_unique(CATEGORY_NAMES@[best]@, best, loser);
    }
}

/// What counts as part of a word: ASCII letters in either case, and digits.
pub proof fn letters_and_digits_make_words(c: char)
    ensures
        is_ascii_alphanumeric(c) <==> ('0' <= c && c <= '9') || ('a' <= c && c <= 'z') || ('A' <= c
            && c <= 'Z'),
{
}

/// A keyword of several words is mentioned where its first occurrence stands on its own.
pub proof fn phrases_on_their_own_count(haystack: &str, keyword: &str, r: bool, i: int)
    requires
        call_ensures(contains_keyword, (haystack, keyword), r),
        keyword@.len() > 0,
        forall|k: int|
            0 <= k < keyword@.len() ==> is_ascii_alphanumeric(#[trigger] keyword@[k]) || keyword@[k]
                == ' ',
        0 <= i <= haystack@.len() - keyword@.len(),
        haystack@.subrange(i, i + keyword@.len()) == keyword@,
        forall|j: int|
            0 <= j < i ==> #[trigger] haystack@.subrange(j, j + keyword@.len()) != keyword@,
        i > 0 ==> !is_ascii_alphanumeric(haystack@[i - 1]),
        i + keyword@.len() < haystack@.len() ==> !is_ascii_alphanumeric(
            haystack@[i + keyword@.len()],
        ),
    ensures
        r,
{
    assert(text::occurs_at(haystack@, keyword@, i));
    lemma_first_phrase(haystack@, keyword@, 0, i);
}

proof fn lemma_first_phrase(s: Seq<char>, keyword: Seq<char>, from: int, at: int)
    requires
        0 <= from <= at,
        text::occurs_at(s, keyword, at),
        stands_alone(s, at, at + keyword.len()),
        forall|j: int| from <= j < at ==> #[trigger] s.subrange(j, j + keyword.len()) != keyword,
    ensures
        word_from(s, keyword, from),
    decreases at - from,
{
    if from < at {
        assert(s.subrange(from, from + keyword.len()) != keyword);
        assert(!text::occurs_at(s, keyword, from));
        lemma_first_phrase(s, keyword, from + 1, at);
    }
}

} // verus!
