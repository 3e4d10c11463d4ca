//! What the bot says of itself, and how it says hello.

use vstd::prelude::*;
use vstd::string::*;
use rand::prelude::IndexedRandom;
use crate::words::slices;

verus! {

/// The head of the help.
pub const ABOUT_ME: &'static str = "# まなみの自己紹介だよ！\n";

/// The help on passing messages on.
pub const ABOUT_GHOSTWRITE: &'static str = "## 代筆機能があるよ！\nまなみは代筆ができるよ！　DMに送ってもらったメッセージを`!channel`で指定されたチャンネルに転送するよ！\n";

/// The help on the commands of direct messages.
pub const ABOUT_DM: &'static str = "## まなみはDMでコマンドを受け付けるよ！
```
!channel             代筆先のチャンネルについてだよ
!erocheck            あなたがエロガキかどうかを判定するよ
!help                このヘルプを表示するよ
!ping                pong!
!calc <expr>         数式を計算するよ
!var <name>=<expr>   calcで使える変数を定義するよ
!varbulk <codeblock> ;区切りで複数の変数を一度に定義するよ
!calcsay <expr>      calcの結果を代筆先に送信するよ
```
";

/// The help on the commands of the channels.
pub const ABOUT_GUILD: &'static str = "## まなみはグループチャットでコマンドを受け付けるよ！
```
![n]d<m>             m面ダイスをn回振るよ
!help                このヘルプを表示するよ
!isprime <n>         nが素数かどうかを判定するよ
!calc <expr>         数式を計算するよ
!var <name>=<expr>   calcで使える変数を定義するよ
!varbulk <codeblock> ;区切りで複数の変数を一度に定義するよ
!jail <user> [sec]   不届き者を収監して 見せます・袋とじ・管理 以外のカテゴリで喋れなくするよ
!unjail <user>       収監を解除するよ
!cclemon <opponent>  CCレモンをするよ
!clear               コマンドを実行したチャンネルのログを忘れるよ
```
";

/// The help: the commands of direct messages are shown to members of the
/// community only.
pub open spec fn help_text(member: bool) -> Seq<char> {
    ABOUT_ME@ + ABOUT_GHOSTWRITE@ + (if member {
        ABOUT_DM@
    } else {
        Seq::empty()
    }) + ABOUT_GUILD@
}

/// The help for someone who is a member of the community or not.
pub fn help(member: bool) -> (text: String)
    ensures
        text@ == help_text(member),
{
    let mut text = String::new();
    text.append(ABOUT_ME);
    text.append(ABOUT_GHOSTWRITE);
    if member {
        text.append(ABOUT_DM);
    }
    text.append(ABOUT_GUILD);
    assert(text@ =~= help_text(member));
    text
}

/// The greetings of the bot.
pub open spec fn greetings() -> Seq<Seq<char>> {
    seq![
        "おはようっ！"@,
        "やっほー！"@,
        "ふわぁ、今日もがんばるよー！"@,
        "あれっ？　寝ちゃってた？"@,
        "おすし買ってきたよー！"@,
        "たーだいまーっ！"@,
        "まなみちゃん、参上！"@,
        "おはよう、みんな！"@,
        "だれかいるー？"@,
        "まなみは元気ですっ！"@,
    ]
}

/// The greetings of the bot.
pub fn greeting_list() -> (list: Vec<&'static str>)
    ensures
        slices(list@) == greetings(),
{
    let list: Vec<&'static str> = vec![
        "おはようっ！",
        "やっほー！",
        "ふわぁ、今日もがんばるよー！",
        "あれっ？　寝ちゃってた？",
        "おすし買ってきたよー！",
        "たーだいまーっ！",
        "まなみちゃん、参上！",
        "おはよう、みんな！",
        "だれかいるー？",
        "まなみは元気ですっ！",
    ];
    assert(slices(list@) =~= greetings());
    list
}

/// `choose` of rand's `IndexedRandom`, with the thread's generator: one
/// of the items, whichever; none of an empty list.
#[verifier::external_body]
fn choose_one(items: &Vec<&'static str>) -> (chosen: Option<&'static str>)
    ensures
        chosen is None <==> items@.len() == 0,
        chosen matches Some(item) ==> items@.contains(item),
{
    items.choose(&mut rand::rng()).copied()
}

/// Says hello: with one of the greetings.
pub fn greeting() -> (text: &'static str)
    ensures
        greetings().contains(text@),
{
    let list = greeting_list();
    assert(list@.len() == slices(list@).len() == 10);
    match choose_one(&list) {
        Some(item) => {
            let ghost index = choose|i: int| 0 <= i < list@.len() && list@[i] == item;
            assert(slices(list@)[index] == item@);
            item
        },
        None => {
            assert(slices(list@)[0] == list@[0]@);
            list[0]
        },
    }
}

} // verus!
