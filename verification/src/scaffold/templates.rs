//! The texts of a new rule directory.

use vstd::prelude::*;

use crate::scaffold::model::{
    lemma_manifest_value_reads_back, named_pattern_type,
    analysis_label_of, catalog_heading_of, cwe_label_of, document_heading_of, manifest_value,
    title_of, RuleScaffoldSpec,
};
use crate::text::{chars_of, decimal, has_substring, occurs_at, push_char, push_decimal};

verus! {

broadcast use vstd::string::group_string_axioms;

/// The text of the rule's `README.md`.
pub open spec fn readme_text(spec: RuleScaffoldSpec) -> Seq<char> {
    r#"# "#@ + document_heading_of(spec) + r#"

Комплект пользовательского правила Solar AppScreener.

Статус разработки:

```text
черновик
```

## Назначение правила

TODO: описать обнаруживаемую проблему и её влияние на безопасность.

## Целевые языки

TODO.

## Целевые платформы

TODO.

## Состав

- `rule/rule-metadata.md` — метаданные правила;
- `rule/patterns/` — XML-паттерны и manifest;
- `tests/include/` — автономные заголовочные файлы;
- `tests/src/` — положительные и отрицательные тесты;
- `tests/build.sh` — сборка тестового проекта;
- `docs/pattern-catalog.md` — каталог паттернов и границы обнаружения.

## Планируемые паттерны

TODO.

## Сборка тестов

```bash
chmod +x tests/build.sh
./tests/build.sh
```

Каждый `.c` и `.cc` компилируется в отдельный объектный файл.

## Контрольный baseline

Solar AppScreener ещё не запускался.

## Ограничения

TODO.
"#@
}

/// The rule's `README.md`.
pub fn readme(spec: &RuleScaffoldSpec) -> (r: String)
    ensures
        r@ == readme_text(*spec),
{
    let heading = spec.document_heading();
    let mut s = String::new();
    s.append(r#"# "#);
    s.append(heading.as_str());
    s.append(r#"

Комплект пользовательского правила Solar AppScreener.

Статус разработки:

```text
черновик
```

## Назначение правила

TODO: описать обнаруживаемую проблему и её влияние на безопасность.

## Целевые языки

TODO.

## Целевые платформы

TODO.

## Состав

- `rule/rule-metadata.md` — метаданные правила;
- `rule/patterns/` — XML-паттерны и manifest;
- `tests/include/` — автономные заголовочные файлы;
- `tests/src/` — положительные и отрицательные тесты;
- `tests/build.sh` — сборка тестового проекта;
- `docs/pattern-catalog.md` — каталог паттернов и границы обнаружения.

## Планируемые паттерны

TODO.

## Сборка тестов

```bash
chmod +x tests/build.sh
./tests/build.sh
```

Каждый `.c` и `.cc` компилируется в отдельный объектный файл.

## Контрольный baseline

Solar AppScreener ещё не запускался.

## Ограничения

TODO.
"#);
    s
}

/// The text of the rule's `rule/rule-metadata.md`.
pub open spec fn rule_metadata_text(spec: RuleScaffoldSpec) -> Seq<char> {
    r#"# Метаданные правила "#@ + document_heading_of(spec) + r#"

| Поле | Значение |
|---|---|
| Rule ID | `TODO` |
| CWE | "#@ + cwe_label_of(spec) + r#" |
| Название | "#@ + table_cell(title_of(spec)) + r#" |
| Языки | TODO |
| Поддерживаемая платформа | TODO |
| Тип анализа | "#@ + analysis_label_of(spec.pattern_type) + r#" |
| Версия Solar AppScreener | TODO |
| Статус | Черновик |

## Описание

TODO.

## Рекомендация

TODO.

## Параметры регистрации

| Параметр | Значение |
|---|---|
| Pattern type | `"#@ + manifest_value(spec.pattern_type) + r#"` |
| Severity | `"#@ + decimal(spec.severity as int) + r#"` |
| Confidence | `"#@ + decimal(spec.confidence as int) + r#"` |
| Active | `true` |

## Подтверждённое покрытие

Пока отсутствует.

## Результат контрольного сканирования

Контрольное сканирование не выполнялось.

## Ограничения

TODO.
"#@
}

/// The rule's `rule/rule-metadata.md`.
pub fn rule_metadata(spec: &RuleScaffoldSpec) -> (r: String)
    ensures
        r@ == rule_metadata_text(*spec),
{
    let heading = spec.document_heading();
    let title = markdown_table_cell(spec.display_title());
    let cwe = spec.cwe_label();
    let mut s = String::new();
    s.append(r#"# Метаданные правила "#);
    s.append(heading.as_str());
    s.append(r#"

| Поле | Значение |
|---|---|
| Rule ID | `TODO` |
| CWE | "#);
    s.append(cwe.as_str());
    s.append(r#" |
| Название | "#);
    s.append(title.as_str());
    s.append(r#" |
| Языки | TODO |
| Поддерживаемая платформа | TODO |
| Тип анализа | "#);
    s.append(spec.pattern_type.analysis_label());
    s.append(r#" |
| Версия Solar AppScreener | TODO |
| Статус | Черновик |

## Описание

TODO.

## Рекомендация

TODO.

## Параметры регистрации

| Параметр | Значение |
|---|---|
| Pattern type | `"#);
    s.append(spec.pattern_type.as_manifest_value());
    s.append(r#"` |
| Severity | `"#);
    push_decimal(&mut s, spec.severity as i64);
    s.append(r#"` |
| Confidence | `"#);
    push_decimal(&mut s, spec.confidence as i64);
    s.append(r#"` |
| Active | `true` |

## Подтверждённое покрытие

Пока отсутствует.

## Результат контрольного сканирования

Контрольное сканирование не выполнялось.

## Ограничения

TODO.
"#);
    s
}

/// The text of the rule's `docs/pattern-catalog.md`.
pub open spec fn pattern_catalog_text(spec: RuleScaffoldSpec) -> Seq<char> {
    r#"# "#@ + catalog_heading_of(spec) + r#"

Паттерны ещё не зарегистрированы.

## Планируемое покрытие

TODO.

## Реализованные паттерны

Пока отсутствуют.

## Положительные тесты

Пока отсутствуют.

## Отрицательные тесты

Пока отсутствуют.

## Известные false positive

Пока отсутствуют.

## Известные false negative

Пока отсутствуют.

## Результат контрольного сканирования

Контрольное сканирование не выполнялось.

## Ограничения

TODO.
"#@
}

/// The rule's `docs/pattern-catalog.md`.
pub fn pattern_catalog(spec: &RuleScaffoldSpec) -> (r: String)
    ensures
        r@ == pattern_catalog_text(*spec),
{
    let heading = spec.pattern_catalog_heading();
    let mut s = String::new();
    s.append(r#"# "#);
    s.append(heading.as_str());
    s.append(r#"

Паттерны ещё не зарегистрированы.

## Планируемое покрытие

TODO.

## Реализованные паттерны

Пока отсутствуют.

## Положительные тесты

Пока отсутствуют.

## Отрицательные тесты

Пока отсутствуют.

## Известные false positive

Пока отсутствуют.

## Известные false negative

Пока отсутствуют.

## Результат контрольного сканирования

Контрольное сканирование не выполнялось.

## Ограничения

TODO.
"#);
    s
}

/// The text of the rule's `rule/patterns/patterns.yaml`.
pub open spec fn patterns_manifest_text(spec: RuleScaffoldSpec) -> Seq<char> {
    r#"version: 1

defaults:
  type: "#@ + manifest_value(spec.pattern_type) + r#"
  severity: "#@ + decimal(spec.severity as int) + r#"
  confidence: "#@ + decimal(spec.confidence as int) + r#"
  active: true

patterns: {}
"#@
}

/// The `type` line of a new rule's manifest names the rule's pattern type:
/// the manifest holds a line `  type: <value>` whose value reads back as the
/// spec's type.
pub proof fn lemma_manifest_names_pattern_type(spec: RuleScaffoldSpec)
    ensures
        exists|value: Seq<char>|
            has_substring(patterns_manifest_text(spec), "\n  type: "@ + value + "\n"@)
                && #[trigger] named_pattern_type(value) == Some(spec.pattern_type),
{
    let v = manifest_value(spec.pattern_type);
    lemma_manifest_value_reads_back(spec.pattern_type, spec.pattern_type);
    let head = r#"version: 1

defaults:
  type: "#@;
    let tail = r#"
  severity: "#@;
    reveal_strlit(r#"version: 1

defaults:
  type: "#);
    reveal_strlit(r#"
  severity: "#);
    reveal_strlit("\n  type: ");
    reveal_strlit("\n");
    let text = patterns_manifest_text(spec);
    let needle = "\n  type: "@ + v + "\n"@;
    let i = head.len() - 9;
    assert(text.subrange(i, i + needle.len()) =~= needle);
    assert(occurs_at(text, needle, i));
}

/// The rule's `rule/patterns/patterns.yaml`: defaults from the spec, no
/// pattern entries yet.
pub fn patterns_manifest(spec: &RuleScaffoldSpec) -> (r: String)
    ensures
        r@ == patterns_manifest_text(*spec),
{
    let mut s = String::new();
    s.append(r#"version: 1

defaults:
  type: "#);
    s.append(spec.pattern_type.as_manifest_value());
    s.append(r#"
  severity: "#);
    push_decimal(&mut s, spec.severity as i64);
    s.append(r#"
  confidence: "#);
    push_decimal(&mut s, spec.confidence as i64);
    s.append(r#"
  active: true

patterns: {}
"#);
    s
}

/// The text of the rule's `tests/build.sh`.
pub open spec fn build_script_text() -> Seq<char> {
    r#"#!/usr/bin/env bash
set -euo pipefail

project_dir="$(cd -- "$(dirname -- "${BASH_SOURCE[0]}")" && pwd)"
source_dir="$project_dir/src"
include_dir="$project_dir/include"
build_dir="$project_dir/build"

c_compiler="${CC:-cc}"
cpp_compiler="${CXX:-c++}"

mkdir -p "$build_dir"

shopt -s nullglob

c_sources=("$source_dir"/*.c)
cpp_sources=("$source_dir"/*.cc)

for source_file in "${c_sources[@]}"; do
    source_name="$(basename -- "${source_file%.c}")"

    "$c_compiler" \
        -x c \
        -std=c11 \
        -Wall \
        -Wextra \
        -I"$include_dir" \
        -c "$source_file" \
        -o "$build_dir/$source_name.c.o"
done

for source_file in "${cpp_sources[@]}"; do
    source_name="$(basename -- "${source_file%.cc}")"

    "$cpp_compiler" \
        -x c++ \
        -std=c++17 \
        -Wall \
        -Wextra \
        -I"$include_dir" \
        -c "$source_file" \
        -o "$build_dir/$source_name.cc.o"
done

echo "Build completed:"
echo "  C objects:   ${#c_sources[@]}"
echo "  C++ objects: ${#cpp_sources[@]}"
echo "  Output:      $build_dir"
"#@
}

/// The rule's `tests/build.sh`: compiles every C and C++ test source into
/// its own object file.
pub fn build_script() -> (r: &'static str)
    ensures
        r@ == build_script_text(),
{
    r#"#!/usr/bin/env bash
set -euo pipefail

project_dir="$(cd -- "$(dirname -- "${BASH_SOURCE[0]}")" && pwd)"
source_dir="$project_dir/src"
include_dir="$project_dir/include"
build_dir="$project_dir/build"

c_compiler="${CC:-cc}"
cpp_compiler="${CXX:-c++}"

mkdir -p "$build_dir"

shopt -s nullglob

c_sources=("$source_dir"/*.c)
cpp_sources=("$source_dir"/*.cc)

for source_file in "${c_sources[@]}"; do
    source_name="$(basename -- "${source_file%.c}")"

    "$c_compiler" \
        -x c \
        -std=c11 \
        -Wall \
        -Wextra \
        -I"$include_dir" \
        -c "$source_file" \
        -o "$build_dir/$source_name.c.o"
done

for source_file in "${cpp_sources[@]}"; do
    source_name="$(basename -- "${source_file%.cc}")"

    "$cpp_compiler" \
        -x c++ \
        -std=c++17 \
        -Wall \
        -Wextra \
        -I"$include_dir" \
        -c "$source_file" \
        -o "$build_dir/$source_name.cc.o"
done

echo "Build completed:"
echo "  C objects:   ${#c_sources[@]}"
echo "  C++ objects: ${#cpp_sources[@]}"
echo "  Output:      $build_dir"
"#
}

/// `value` with every `|` escaped for a Markdown table cell.
pub open spec fn table_cell(value: Seq<char>) -> Seq<char>
    decreases value.len(),
{
    if value.len() == 0 {
        seq![]
    } else {
        table_cell(value.drop_last()) + if value.last() == '|' {
            seq!['\\', '|']
        } else {
            seq![value.last()]
        }
    }
}

/// `value` with every `|` escaped for a Markdown table cell.
pub fn markdown_table_cell(value: &str) -> (r: String)
    ensures
        r@ == table_cell(value@),
{
    let chars = chars_of(value);
    let mut s = String::new();
    let mut i: usize = 0;
    while i < chars.len()
        invariant
            i <= chars@.len(),
            s@ == table_cell(chars@.take(i as int)),
        decreases chars@.len() - i,
    {
        assert(chars@.take(i + 1).drop_last() == chars@.take(i as int));
        assert(chars@.take(i + 1).last() == chars@[i as int]);
        if chars[i] == '|' {
            push_char(&mut s, '\\');
            push_char(&mut s, '|');
            assert(s@ =~= table_cell(chars@.take(i + 1)));
        } else {
            push_char(&mut s, chars[i]);
            assert(s@ =~= table_cell(chars@.take(i + 1)));
        }
        i += 1;
    }
    assert(chars@.take(chars@.len() as int) == chars@);
    s
}

} // verus!
