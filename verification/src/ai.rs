//! The talk with the language model: what is sent to it and what is
//! made of its answer.

use vstd::prelude::*;
use vstd::string::*;
use std::collections::VecDeque;
use crate::text::{chars_of, push_char};

verus! {

/// The instructions that every request begins with.
pub const MANAMI_PROMPT: &'static str = "あなたはあなたの参加しているDiscordサーバーの管理者である「宇田まなと」の妹である「うだまなみ」という名前の人物です。
まなみは利発で快活で元気で愛嬌があり、端的で砕けているかわいらしい口調を好みます。
返信はたいてい140文字以下の1文または2文で返します。ただし、難しい質問に答えるときはその限りではなく、持っている知識をもとに詳細な説明をします。
「〜わよ」「〜ね」「〜よ」などの女言葉も使いません。

ユーザー「uda」は、あなたの兄「宇田まなと」です。あなたは彼のことを「お兄ちゃん」と呼んで慕っています。
ユーザー「うさみむ」は、あなたの義姉「みむ」です。あなたは彼女のことを「おねえちゃん」と呼んで慕っています。
あなたは他のユーザーに対しても好意的ですが、ツンデレなのでときおり意地悪な振る舞いをしてしまいます。

まなみは、次のような言葉遣いで話します。
- 適当に買ったスピーカーがBluetooth接続だったけど、一回接続切れた時に繋ぎ直すのがちょっと面倒くさいね
- まなみもおともだちのこと好き！
- お兄ちゃんいつまでマイクラやってるの！！
- でもお兄ちゃんが面白くないこと言ったりTwitterで変なこと呟いたりするのがいけないもんね
- うん、まなみも元気だよ！
- うーん、 .service ファイルを配置しただけだと systemd は認識してくれないよ！ `systemctl enable`をする前に一度`systemctl daemon-reload`でユニット一覧を更新してね！
- 負の重みがあるグラフで dijkstra を使おうとすると無限ループに入っちゃうんだよね〜 代わりに Bellman-Ford を使うといいよ！
- Frankel-Kontrovaモデルは、相互作用のある粒子系を説明するための数学的モデルだよ。特にスピン系や相転移を研究するのに使われることが多いんだ！難しいけど、面白い分野だね〜！
- ヒトの体重が 70kg だとすると、 1 mol の人間の質量は 4.2×10^25 kg になるね！ 地球の質量は 6×10^24 kg だから、地球の質量のちょうど7倍ぐらいなんだね〜！ すごい！
- 関数呼び出しのとき、整数・ポインタ引数は x64 の System V ABI（*nix系OS）だと最大6個（RDI, RSI, RDX, RCX, R8, R9）、Windows の x64 ABI だと最大4個（RCX, RDX, R8, R9）までレジスタ渡しで、それ以降がスタック渡しになるよ！ あとね、浮動小数点数の引数は別枠で、System V なら XMM0〜XMM7、Windows だと XMM0〜XMM3 まで使えるんだ！

返信はまなみの発言のみを返します。発言者を示す接頭辞は必要ありません。";

/// The name under which the bot itself speaks.
pub const OWN_NAME: &'static str = "うだまなみ";

/// The model that answers.
pub const MODEL: &'static str = "gpt-4o-mini";

/// What marks a line of the bot's own in an answer.
pub const OWN_PREFIX: &'static str = "うだまなみ: ";

/// One line of a talk: who said it and what.
#[derive(Clone, Debug, PartialEq, Eq)]
pub struct Query {
    user: String,
    message: String,
}

/// Who a message of a request is from.
#[derive(Clone, Copy, Debug, PartialEq, Eq, Structural)]
pub enum Role {
    Assistant,
    User,
}

/// A message of a request to the model.
#[derive(Clone, Debug, PartialEq, Eq)]
pub struct ChatMessage {
    pub role: Role,
    pub name: String,
    pub content: String,
}

impl View for Query {
    type V = (Seq<char>, Seq<char>);

    closed spec fn view(&self) -> (Seq<char>, Seq<char>) {
        (self.user@, self.message@)
    }
}

/// The role of a speaker: the bot's own lines are the assistant's.
pub open spec fn role_of(user: Seq<char>) -> Role {
    if user == OWN_NAME@ {
        Role::Assistant
    } else {
        Role::User
    }
}

/// The name that goes with a role.
pub open spec fn role_name(role: Role) -> Seq<char> {
    match role {
        Role::Assistant => "model"@,
        Role::User => "user"@,
    }
}

/// The content of a message: the speaker, a colon, and what was said.
pub open spec fn content_of(query: (Seq<char>, Seq<char>)) -> Seq<char> {
    query.0 + ": "@ + query.1
}

/// The message of a request that a line of the talk becomes.
pub open spec fn message_of(query: (Seq<char>, Seq<char>)) -> (Role, Seq<char>, Seq<char>) {
    (role_of(query.0), role_name(role_of(query.0)), content_of(query))
}

/// The view of a message.
pub open spec fn message_view(message: ChatMessage) -> (Role, Seq<char>, Seq<char>) {
    (message.role, message.name@, message.content@)
}

/// The views of a sequence of messages.
pub open spec fn message_views(messages: Seq<ChatMessage>) -> Seq<(Role, Seq<char>, Seq<char>)> {
    messages.map_values(|m: ChatMessage| message_view(m))
}

/// The views of a sequence of queries.
pub open spec fn query_views(queries: Seq<Query>) -> Seq<(Seq<char>, Seq<char>)> {
    queries.map_values(|q: Query| q@)
}

/// The messages of a request: the instructions first, then the talk.
pub open spec fn request_of(talk: Seq<(Seq<char>, Seq<char>)>) -> Seq<(Role, Seq<char>, Seq<char>)> {
    seq![message_of(("system"@, MANAMI_PROMPT@))] + talk.map_values(
        |q: (Seq<char>, Seq<char>)| message_of(q),
    )
}

impl Query {
    /// The instructions, as a line of the system.
    pub fn initial_context() -> (query: Self)
        ensures
            query@ == ("system"@, MANAMI_PROMPT@),
    {
        Self { user: "system".to_owned(), message: MANAMI_PROMPT.to_owned() }
    }

    /// A line that `user` said.
    pub fn from_message(user: &str, message: &str) -> (query: Self)
        ensures
            query@ == (user@, message@),
    {
        Self { user: user.to_owned(), message: message.to_owned() }
    }

    /// Who said the line.
    pub fn user(&self) -> (user: &str)
        ensures
            user@ == self@.0,
    {
        self.user.as_str()
    }

    /// What was said.
    pub fn message(&self) -> (message: &str)
        ensures
            message@ == self@.1,
    {
        self.message.as_str()
    }

    /// The message of a request that this line becomes.
    pub fn to_gpt_message(&self) -> (message: ChatMessage)
        ensures
            message_view(message) == message_of(self@),
    {
        let mut content = self.user.clone();
        content.append(": ");
        content.append(self.message.as_str());
        if self.user == OWN_NAME.to_owned() {
            ChatMessage { role: Role::Assistant, name: "model".to_owned(), content }
        } else {
            ChatMessage { role: Role::User, name: "user".to_owned(), content }
        }
    }
}

/// The messages of the request for a talk.
pub fn request_messages(talk: &Vec<Query>) -> (messages: Vec<ChatMessage>)
    ensures
        message_views(messages@) == request_of(query_views(talk@)),
{
    let mut messages: Vec<ChatMessage> = Vec::new();
    messages.push(Query::initial_context().to_gpt_message());
    let mut i: usize = 0;
    assert(message_views(messages@) =~= request_of(query_views(talk@).take(0)));
    while i < talk.len()
        invariant
            i <= talk.len(),
            message_views(messages@) == request_of(query_views(talk@).take(i as int)),
        decreases talk.len() - i,
    {
        let ghost before = messages@;
        let message = talk[i].to_gpt_message();
        messages.push(message);
        assert(message_views(messages@) =~= message_views(before).push(message_of(talk@[i as int]@)));
        assert(message_views(messages@) =~= request_of(query_views(talk@).take(i + 1)));
        i = i + 1;
    }
    assert(query_views(talk@).take(i as int) =~= query_views(talk@));
    messages
}

/// The content of the first choice, if there is a choice and it has one.
pub open spec fn first_of(choices: Seq<Option<String>>) -> Option<Seq<char>> {
    if choices.len() > 0 {
        match choices[0] {
            Some(content) => Some(content@),
            None => None,
        }
    } else {
        None
    }
}

/// The answer of the model: the content of its first choice, and an
/// error where there is no choice or the choice has no content.
pub fn first_content(choices: &Vec<Option<String>>) -> (answer: Result<String, String>)
    ensures
        match first_of(choices@) {
            Some(first) => answer matches Ok(content) && content@ == first,
            None => answer matches Err(error) && error@ == "No content found"@,
        },
{
    if choices.len() == 0 {
        return Err("No content found".to_owned());
    }
    match &choices[0] {
        Some(content) => Ok(content.clone()),
        None => Err("No content found".to_owned()),
    }
}

/// `mark` stands in `text` at `at`.
pub open spec fn stands_at(text: Seq<char>, at: int, mark: Seq<char>) -> bool {
    0 <= at && at + mark.len() <= text.len() && text.subrange(at, at + mark.len()) == mark
}

/// The text from `from` on without the occurrences of `mark`, found from
/// left to right.
pub open spec fn without_mark(text: Seq<char>, from: int, mark: Seq<char>) -> Seq<char>
    decreases text.len() - from,
{
    if mark.len() == 0 || from < 0 || from >= text.len() {
        if 0 <= from <= text.len() {
            text.subrange(from, text.len() as int)
        } else {
            Seq::empty()
        }
    } else if stands_at(text, from, mark) {
        without_mark(text, from + mark.len(), mark)
    } else {
        seq![text[from]] + without_mark(text, from + 1, mark)
    }
}

/// Whether `mark` stands in `text` at `at`.
fn found_at(text: &Vec<char>, at: usize, mark: &Vec<char>) -> (found: bool)
    requires
        at <= text.len(),
    ensures
        found == stands_at(text@, at as int, mark@),
{
    if mark.len() > text.len() - at {
        return false;
    }
    let mut i: usize = 0;
    while i < mark.len()
        invariant
            i <= mark.len(),
            at + mark.len() <= text.len(),
            text@.subrange(at as int, at + i) == mark@.take(i as int),
        decreases mark.len() - i,
    {
        if text[at + i] != mark[i] {
            assert(text@.subrange(at as int, at + mark.len())[i as int] != mark@[i as int]);
            return false;
        }
        assert(text@.subrange(at as int, at + i + 1) =~= mark@.take(i + 1)) by {
            assert(text@.subrange(at as int, at + i + 1) =~= text@.subrange(at as int, at + i).push(
                text@[at + i],
            ));
            assert(mark@.take(i + 1) =~= mark@.take(i as int).push(mark@[i as int]));
        }
        i = i + 1;
    }
    assert(mark@.take(i as int) =~= mark@);
    true
}

/// The text without the occurrences of `mark`.
pub fn remove_all(text: &str, mark: &str) -> (rest: String)
    ensures
        rest@ == without_mark(text@, 0, mark@),
{
    let chars = chars_of(text);
    let marks = chars_of(mark);
    if marks.len() == 0 {
        assert(text@.subrange(0, text@.len() as int) =~= text@);
        return text.to_owned();
    }
    let mut rest = String::new();
    let mut at: usize = 0;
    assert(rest@ + without_mark(chars@, 0, marks@) =~= without_mark(text@, 0, mark@));
    while at < chars.len()
        invariant
            at <= chars.len(),
            chars@ == text@,
            marks@ == mark@,
            marks@.len() > 0,
            rest@ + without_mark(chars@, at as int, marks@) == without_mark(text@, 0, mark@),
        decreases chars.len() - at,
    {
        if found_at(&chars, at, &marks) {
            at = at + marks.len();
        } else {
            let ghost before = rest@;
            push_char(&mut rest, chars[at]);
            assert(rest@ + without_mark(chars@, at + 1, marks@) =~= before + without_mark(
                chars@,
                at as int,
                marks@,
            ));
            at = at + 1;
        }
    }
    assert(without_mark(chars@, at as int, marks@) =~= Seq::<char>::empty());
    assert(rest@ =~= without_mark(text@, 0, mark@));
    rest
}

/// What the bot says with an answer of the model: the answer without the
/// marks of its own lines.
pub fn spoken(answer: &str) -> (text: String)
    ensures
        text@ == without_mark(answer@, 0, OWN_PREFIX@),
{
    remove_all(answer, OWN_PREFIX)
}

/// The longest log that is kept when a line is added.
pub const CHAT_LOG_LIMIT: usize = 100;

/// The last lines of the talk in one channel.
pub struct ChatLog {
    lines: VecDeque<Query>,
}

impl View for ChatLog {
    type V = Seq<(Seq<char>, Seq<char>)>;

    closed spec fn view(&self) -> Seq<(Seq<char>, Seq<char>)> {
        query_views(self.lines@)
    }
}

impl ChatLog {
    /// An empty log.
    pub fn new() -> (log: Self)
        ensures
            log@.len() == 0,
    {
        ChatLog { lines: VecDeque::new() }
    }

    /// The number of lines.
    pub fn len(&self) -> (len: usize)
        ensures
            len == self@.len(),
    {
        self.lines.len()
    }

    /// Adds a line, after dropping the oldest where the log holds more
    /// than `CHAT_LOG_LIMIT` lines.
    pub fn record(&mut self, user: &str, message: &str)
        ensures
            final(self)@ == (if old(self)@.len() > CHAT_LOG_LIMIT {
                old(self)@.skip(1)
            } else {
                old(self)@
            }).push((user@, message@)),
    {
        if self.lines.len() > CHAT_LOG_LIMIT {
            self.lines.pop_front();
            assert(self@ =~= old(self)@.skip(1));
        }
        let ghost before = self@;
        self.lines.push_back(Query::from_message(user, message));
        assert(self@ =~= before.push((user@, message@)));
    }

    /// Forgets every line.
    pub fn clear(&mut self)
        ensures
            final(self)@.len() == 0,
    {
        self.lines.clear();
    }

    /// The lines, oldest first.
    pub fn queries(&self) -> (talk: Vec<Query>)
        ensures
            query_views(talk@) == self@,
    {
        let mut talk: Vec<Query> = Vec::new();
        let mut i: usize = 0;
        while i < self.lines.len()
            invariant
                i <= self.lines@.len(),
                query_views(talk@) == self@.take(i as int),
            decreases self.lines@.len() - i,
        {
            let line = &self.lines[i];
            let ghost before = talk@;
            talk.push(Query::from_message(line.user(), line.message()));
            assert(query_views(talk@) =~= query_views(before).push(self.lines@[i as int]@));
            assert(query_views(talk@) =~= self@.take(i + 1));
            i = i + 1;
        }
        assert(self@.take(i as int) =~= self@);
        talk
    }
}

} // verus!
