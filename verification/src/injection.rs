use vstd::prelude::*;
use vstd::string::{StrSliceExecFns, StringExecFns};
use crate::model::{
    GrammarId, ParseError, ParseErrorView, QueryHit, QueryHitView, QuerySetting,
    QuerySettingView, TSRange, hits_view, settings_view,
};
use crate::native::{
    ends_in_name, pattern_count, property_settings, query_settings, range_fits, ranges_fit,
};

verus! {

/// The grammar that an injection directive names: `html` or `liquid`.
pub open spec fn language_named(name: Seq<char>) -> Option<GrammarId> {
    if name == "html"@ {
        Some(GrammarId::Html)
    } else if name == "liquid"@ {
        Some(GrammarId::Liquid)
    } else {
        None
    }
}

/// The error for a directive that names no known grammar.
pub open spec fn unknown_injection_language() -> ParseErrorView {
    ParseErrorView::QueryError { message: "Unknown injection language"@ }
}

/// The grammar that a name stands for. Fails with a `QueryError` on any name
/// but `html` and `liquid`.
pub fn get_language_from_string(language_string: &str) -> (language: Result<GrammarId, ParseError>)
    ensures
        match language_named(language_string@) {
            Some(named) => language matches Ok(l) && l == named,
            None => language matches Err(e) && e@ == unknown_injection_language(),
        },
{
    let name = language_string.to_owned();
    if name == "html".to_owned() {
        Ok(GrammarId::Html)
    } else if name == "liquid".to_owned() {
        Ok(GrammarId::Liquid)
    } else {
        Err(ParseError::QueryError { message: "Unknown injection language".to_owned() })
    }
}

/// The text that is compiled for a query: the query itself, with a space
/// after it where it ends in a character that may belong to a name. The
/// space means nothing to the compiler, which without it does not return
/// where the query ends in a name it does not know.
pub open spec fn compiled_text(query: Seq<char>) -> Seq<char> {
    if ends_in_name(query) {
        query.push(' ')
    } else {
        query
    }
}

/// The text to compile for a query.
pub fn query_text(query: &str) -> (text: String)
    ensures
        text@ == compiled_text(query@),
        !ends_in_name(text@),
{
    let count = query.unicode_len();
    let padded = if count > 0 {
        let last = query.get_char(count - 1);
        ('a' <= last && last <= 'z') || ('A' <= last && last <= 'Z') || ('0' <= last && last <= '9')
            || last == '_' || last == '-' || last > '\u{7f}'
    } else {
        false
    };
    if padded {
        proof {
            reveal_strlit(" ");
            assert((query@ + " "@) =~= query@.push(' '));
        }
        query.to_owned().concat(" ")
    } else {
        query.to_owned()
    }
}

/// The first of a pattern's settings whose key is `injection.language`.
pub open spec fn injection_setting(settings: Seq<QuerySettingView>) -> Option<QuerySettingView>
    decreases settings.len(),
{
    if settings.len() == 0 {
        None
    } else {
        match injection_setting(settings.drop_last()) {
            Some(found) => Some(found),
            None => if settings.last().key == "injection.language"@ {
                Some(settings.last())
            } else {
                None
            },
        }
    }
}

/// Whether a setting, if its key is `injection.language`, names a known
/// grammar.
pub open spec fn names_known_grammar(setting: QuerySettingView) -> bool {
    setting.key == "injection.language"@ ==> (setting.value matches Some(name) && language_named(
        name,
    ) is Some)
}

/// Whether every `injection.language` setting of a pattern names a known
/// grammar.
pub open spec fn all_injections_known(settings: Seq<QuerySettingView>) -> bool {
    forall|i: int| 0 <= i < settings.len() ==> names_known_grammar(#[trigger] settings[i])
}

/// The grammar that a pattern injects: none where the pattern has no
/// `injection.language` setting, else the grammar that the first such
/// setting names. `None` where any such setting of the pattern, the first
/// or a later one, has no value or names no known grammar.
pub open spec fn pattern_target(settings: Seq<QuerySettingView>) -> Option<Option<GrammarId>> {
    if !all_injections_known(settings) {
        None
    } else {
        match injection_setting(settings) {
            None => Some(None),
            Some(setting) => Some(language_named(setting.value->0)),
        }
    }
}

/// The grammars that the patterns of a query inject, pattern by pattern;
/// `None` where some `injection.language` setting of some pattern names no
/// known grammar.
pub open spec fn injection_targets(patterns: Seq<Seq<QuerySettingView>>) -> Option<Seq<Option<GrammarId>>>
    decreases patterns.len(),
{
    if patterns.len() == 0 {
        Some(Seq::empty())
    } else {
        match (injection_targets(patterns.drop_last()), pattern_target(patterns.last())) {
            (Some(targets), Some(target)) => Some(targets.push(target)),
            _ => None,
        }
    }
}

/// The first `injection.language` setting of a list is one of its settings
/// and has that key.
proof fn lemma_injection_setting_is_one(settings: Seq<QuerySettingView>)
    requires
        injection_setting(settings) is Some,
    ensures
        exists|i: int|
            0 <= i < settings.len() && #[trigger] settings[i] == injection_setting(settings)->0,
        injection_setting(settings)->0.key == "injection.language"@,
    decreases settings.len(),
{
    if injection_setting(settings.drop_last()) is Some {
        lemma_injection_setting_is_one(settings.drop_last());
        let i = choose|i: int|
            0 <= i < settings.drop_last().len() && #[trigger] settings.drop_last()[i]
                == injection_setting(settings.drop_last())->0;
        assert(settings[i] == injection_setting(settings)->0);
    } else {
        assert(settings[settings.len() - 1] == injection_setting(settings)->0);
    }
}

/// The grammar that one pattern's settings inject, if any: the one that the
/// first `injection.language` setting names. Fails with a `QueryError` where
/// any such setting of the pattern has no value or names no known grammar.
pub fn resolve_pattern(settings: &Vec<QuerySetting>) -> (target: Result<Option<GrammarId>, ParseError>)
    ensures
        match pattern_target(settings_view(settings@)) {
            Some(expected) => target matches Ok(t) && t == expected,
            None => target matches Err(e) && e@ == unknown_injection_language(),
        },
{
    let ghost all = settings_view(settings@);
    let key = "injection.language".to_owned();
    let mut target: Option<GrammarId> = None;
    let mut found = false;
    let mut index: usize = 0;
    proof {
        assert(all.subrange(0, 0) =~= Seq::<QuerySettingView>::empty());
    }
    while index < settings.len()
        invariant
            index <= settings@.len(),
            all == settings_view(settings@),
            key@ == "injection.language"@,
            forall|i: int| 0 <= i < index ==> names_known_grammar(#[trigger] all[i]),
            found == (injection_setting(all.subrange(0, index as int)) is Some),
            found ==> target == language_named(
                injection_setting(all.subrange(0, index as int))->0.value->0,
            ),
            !found ==> target is None,
        decreases settings@.len() - index,
    {
        proof {
            assert(all.subrange(0, index + 1).drop_last() =~= all.subrange(0, index as int));
            assert(all.subrange(0, index + 1).last() == all[index as int]);
        }
        if settings[index].key == key {
            let named = match &settings[index].value {
                None => Err(ParseError::QueryError { message: "Unknown injection language".to_owned() }),
                Some(name) => get_language_from_string(name.as_str()),
            };
            match named {
                Err(error) => {
                    proof {
                        assert(!names_known_grammar(all[index as int]));
                    }
                    return Err(error);
                },
                Ok(language) => {
                    if !found {
                        target = Some(language);
                        found = true;
                    }
                },
            }
        }
        index = index + 1;
    }
    proof {
        assert(all.subrange(0, index as int) =~= all);
        if found {
            lemma_injection_setting_is_one(all);
        }
    }
    Ok(target)
}

/// The views of the settings of the patterns of a query, pattern by pattern.
pub open spec fn patterns_view(patterns: Seq<Vec<QuerySetting>>) -> Seq<Seq<QuerySettingView>> {
    patterns.map_values(|settings: Vec<QuerySetting>| settings_view(settings@))
}

/// The grammars that the patterns of a query inject, pattern by pattern.
/// Fails with a `QueryError` where some `injection.language` setting of some
/// pattern names no known grammar.
pub fn resolve_targets(patterns: &Vec<Vec<QuerySetting>>) -> (targets: Result<Vec<Option<GrammarId>>, ParseError>)
    ensures
        match injection_targets(patterns_view(patterns@)) {
            Some(expected) => targets matches Ok(t) && t@ == expected,
            None => targets matches Err(e) && e@ == unknown_injection_language(),
        },
{
    let ghost all = patterns_view(patterns@);
    let mut targets: Vec<Option<GrammarId>> = Vec::new();
    let mut index: usize = 0;
    proof {
        assert(all.subrange(0, 0) =~= Seq::<Seq<QuerySettingView>>::empty());
    }
    while index < patterns.len()
        invariant
            index <= patterns@.len(),
            all == patterns_view(patterns@),
            injection_targets(all.subrange(0, index as int)) == Some(targets@),
        decreases patterns@.len() - index,
    {
        proof {
            assert(all.subrange(0, index + 1).drop_last() =~= all.subrange(0, index as int));
        }
        match resolve_pattern(&patterns[index]) {
            Ok(target) => {
                targets.push(target);
            },
            Err(error) => {
                proof {
                    lemma_injection_targets_fail(all, index + 1);
                }
                return Err(error);
            },
        }
        index = index + 1;
    }
    proof {
        assert(all.subrange(0, index as int) =~= all);
    }
    Ok(targets)
}

/// Where the first patterns of a query name an unknown grammar, the query
/// does.
proof fn lemma_injection_targets_fail(patterns: Seq<Seq<QuerySettingView>>, upto: int)
    requires
        0 <= upto <= patterns.len(),
        injection_targets(patterns.subrange(0, upto)) is None,
    ensures
        injection_targets(patterns) is None,
    decreases patterns.len() - upto,
{
    if upto < patterns.len() {
        let next = patterns.subrange(0, upto + 1);
        assert(next.drop_last() =~= patterns.subrange(0, upto));
        lemma_injection_targets_fail(patterns, upto + 1);
    } else {
        assert(patterns.subrange(0, upto) =~= patterns);
    }
}

/// The settings of each pattern of a compiled query.
pub fn query_patterns(query: &tree_sitter::Query) -> (patterns: Vec<Vec<QuerySetting>>)
    ensures
        patterns_view(patterns@) == query_settings(*query),
{
    let count = pattern_count(query);
    let mut patterns: Vec<Vec<QuerySetting>> = Vec::new();
    let mut index: usize = 0;
    while index < count
        invariant
            count == query_settings(*query).len(),
            index <= count,
            patterns@.len() == index,
            forall|i: int|
                0 <= i < index ==> settings_view(#[trigger] patterns@[i]@) == query_settings(
                    *query,
                )[i],
        decreases count - index,
    {
        let settings = property_settings(query, index);
        patterns.push(settings);
        index = index + 1;
    }
    proof {
        assert(patterns_view(patterns@) =~= query_settings(*query));
    }
    patterns
}

/// The ranges that the matches of one pattern captured: match after match,
/// and within a match capture after capture.
pub open spec fn pattern_ranges(hits: Seq<QueryHitView>, pattern: int) -> Seq<TSRange>
    decreases hits.len(),
{
    if hits.len() == 0 {
        Seq::empty()
    } else if hits.last().pattern_index == pattern {
        pattern_ranges(hits.drop_last(), pattern) + hits.last().ranges
    } else {
        pattern_ranges(hits.drop_last(), pattern)
    }
}

/// The ranges to parse under a grammar: those of the patterns that inject
/// it, pattern after pattern. Nothing is merged or left out.
pub open spec fn language_ranges(
    targets: Seq<Option<GrammarId>>,
    hits: Seq<QueryHitView>,
    language: GrammarId,
) -> Seq<TSRange>
    decreases targets.len(),
{
    if targets.len() == 0 {
        Seq::empty()
    } else if targets.last() == Some(language) {
        language_ranges(targets.drop_last(), hits, language) + pattern_ranges(
            hits,
            targets.len() - 1,
        )
    } else {
        language_ranges(targets.drop_last(), hits, language)
    }
}

/// Appends to `ranges` the ranges that the matches of one pattern captured.
pub fn collect_pattern_ranges(hits: &Vec<QueryHit>, pattern: usize, ranges: &mut Vec<TSRange>)
    ensures
        final(ranges)@ == old(ranges)@ + pattern_ranges(hits_view(hits@), pattern as int),
{
    let ghost all = hits_view(hits@);
    let ghost before = ranges@;
    let mut index: usize = 0;
    proof {
        assert(all.subrange(0, 0) =~= Seq::<QueryHitView>::empty());
        assert(ranges@ =~= before + pattern_ranges(all.subrange(0, 0), pattern as int));
    }
    while index < hits.len()
        invariant
            index <= hits@.len(),
            all == hits_view(hits@),
            ranges@ == before + pattern_ranges(all.subrange(0, index as int), pattern as int),
        decreases hits@.len() - index,
    {
        let ghost upto = all.subrange(0, index + 1);
        let ghost so_far = ranges@;
        proof {
            assert(upto.drop_last() =~= all.subrange(0, index as int));
            assert(upto.last() == hits@[index as int]@);
        }
        let hit = &hits[index];
        if hit.pattern_index == pattern {
            let mut capture: usize = 0;
            while capture < hit.ranges.len()
                invariant
                    capture <= hit.ranges@.len(),
                    ranges@ == so_far + hit.ranges@.subrange(0, capture as int),
                decreases hit.ranges@.len() - capture,
            {
                ranges.push(hit.ranges[capture]);
                proof {
                    assert(hit.ranges@.subrange(0, capture + 1) =~= hit.ranges@.subrange(
                        0,
                        capture as int,
                    ).push(hit.ranges@[capture as int]));
                }
                capture = capture + 1;
            }
            proof {
                assert(hit.ranges@.subrange(0, capture as int) =~= hit.ranges@);
                assert(ranges@ =~= before + pattern_ranges(upto, pattern as int));
            }
        }
        index = index + 1;
    }
    proof {
        assert(all.subrange(0, index as int) =~= all);
    }
}

/// The ranges to parse under a grammar, from the grammars that the patterns
/// inject and the matches that were found.
pub fn ranges_for(targets: &Vec<Option<GrammarId>>, hits: &Vec<QueryHit>, language: GrammarId) -> (ranges: Vec<TSRange>)
    ensures
        ranges@ == language_ranges(targets@, hits_view(hits@), language),
{
    let ghost all = hits_view(hits@);
    let mut ranges: Vec<TSRange> = Vec::new();
    let mut pattern: usize = 0;
    proof {
        assert(targets@.subrange(0, 0) =~= Seq::<Option<GrammarId>>::empty());
    }
    while pattern < targets.len()
        invariant
            pattern <= targets@.len(),
            all == hits_view(hits@),
            ranges@ == language_ranges(targets@.subrange(0, pattern as int), all, language),
        decreases targets@.len() - pattern,
    {
        proof {
            assert(targets@.subrange(0, pattern + 1).drop_last() =~= targets@.subrange(
                0,
                pattern as int,
            ));
        }
        let injects = match targets[pattern] {
            Some(target) => target == language,
            None => false,
        };
        if injects {
            collect_pattern_ranges(hits, pattern, &mut ranges);
        }
        pattern = pattern + 1;
    }
    proof {
        assert(targets@.subrange(0, pattern as int) =~= targets@);
    }
    ranges
}

/// Whether a parser can be handed the ranges: their number and every number
/// in them fit in 32 bits.
pub fn check_ranges_fit(ranges: &Vec<TSRange>) -> (fit: bool)
    ensures
        fit == ranges_fit(ranges@),
{
    let limit: usize = 0xffff_ffff;
    if ranges.len() > limit {
        return false;
    }
    let mut index: usize = 0;
    while index < ranges.len()
        invariant
            index <= ranges@.len(),
            limit == 0xffff_ffff,
            forall|i: int| 0 <= i < index ==> range_fits(#[trigger] ranges@[i]),
        decreases ranges@.len() - index,
    {
        let range = ranges[index];
        if range.start_byte > limit || range.end_byte > limit || range.start_point.row > limit
            || range.start_point.column > limit || range.end_point.row > limit
            || range.end_point.column > limit {
            return false;
        }
        index = index + 1;
    }
    true
}

} // verus!
